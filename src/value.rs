use vstd::prelude::*;
use crate::chars::{push_char, string_of, trim, trim_bounds};

verus! {

/// What a backslash followed by `c` stands for inside double quotes, if anything.
pub open spec fn escape_target(c: char) -> Option<char> {
    if c == '"' {
        Some('"')
    } else if c == '\\' {
        Some('\\')
    } else if c == 'n' {
        Some('\n')
    } else if c == 't' {
        Some('\t')
    } else if c == 'r' {
        Some('\r')
    } else {
        None
    }
}

/// One left-to-right pass over a double-quoted body: each recognised
/// backslash pair becomes one character, everything else is kept.
pub open spec fn unescape(s: Seq<char>) -> Seq<char>
    decreases s.len(),
{
    if s.len() == 0 {
        seq![]
    } else if s.len() >= 2 && s[0] == '\\' && escape_target(s[1]) is Some {
        seq![escape_target(s[1])->0] + unescape(s.skip(2))
    } else {
        seq![s[0]] + unescape(s.skip(1))
    }
}

/// `t` starts and ends with the quote `q`, and these are two distinct characters.
pub open spec fn wrapped_in(t: Seq<char>, q: char) -> bool {
    t.len() >= 2 && t[0] == q && t.last() == q
}

/// The value a raw value token stands for.
pub open spec fn decode_value(v: Seq<char>) -> Seq<char> {
    let t = trim(v);
    if wrapped_in(t, '"') {
        unescape(t.subrange(1, t.len() - 1))
    } else if wrapped_in(t, '\'') {
        t.subrange(1, t.len() - 1)
    } else {
        t
    }
}

fn escape_target_of(c: char) -> (r: Option<char>)
    ensures
        r == escape_target(c),
{
    if c == '"' {
        Some('"')
    } else if c == '\\' {
        Some('\\')
    } else if c == 'n' {
        Some('\n')
    } else if c == 't' {
        Some('\t')
    } else if c == 'r' {
        Some('\r')
    } else {
        None
    }
}

/// Appends the decoding of the double-quoted body `v[lo..hi]` to `out`.
fn push_unescaped(out: &mut String, v: &Vec<char>, lo: usize, hi: usize)
    requires
        lo <= hi <= v@.len(),
    ensures
        final(out)@ == old(out)@ + unescape(v@.subrange(lo as int, hi as int)),
{
    let mut i: usize = lo;
    while i < hi
        invariant
            lo <= i <= hi <= v@.len(),
            out@ + unescape(v@.subrange(i as int, hi as int)) == old(out)@ + unescape(
                v@.subrange(lo as int, hi as int),
            ),
        decreases hi - i,
    {
        let ghost rest = v@.subrange(i as int, hi as int);
        let ghost before = out@;
        let mut step: usize = 1;
        if v[i] == '\\' && i + 1 < hi {
            match escape_target_of(v[i + 1]) {
                Some(d) => {
                    push_char(out, d);
                    step = 2;
                },
                None => {
                    push_char(out, v[i]);
                },
            }
        } else {
            push_char(out, v[i]);
        }
        assert(rest.skip(step as int) =~= v@.subrange(i + step, hi as int));
        assert(out@ + unescape(rest.skip(step as int)) =~= before + unescape(rest));
        i = i + step;
    }
}

/// The value that the raw token `v[lo..hi]` stands for: quotes are removed,
/// and escapes are decoded inside double quotes only.
pub fn decode(v: &Vec<char>, lo: usize, hi: usize) -> (r: String)
    requires
        lo <= hi <= v@.len(),
    ensures
        r@ == decode_value(v@.subrange(lo as int, hi as int)),
{
    let (a, b) = trim_bounds(v, lo, hi);
    let ghost t = v@.subrange(a as int, b as int);
    if b - a >= 2 && v[a] == '"' && v[b - 1] == '"' {
        let mut s = String::new();
        push_unescaped(&mut s, v, a + 1, b - 1);
        assert(t.subrange(1, t.len() - 1) =~= v@.subrange(a + 1, b - 1));
        assert(s@ =~= unescape(t.subrange(1, t.len() - 1)));
        s
    } else if b - a >= 2 && v[a] == '\'' && v[b - 1] == '\'' {
        assert(t.subrange(1, t.len() - 1) =~= v@.subrange(a + 1, b - 1));
        string_of(v, a + 1, b - 1)
    } else {
        string_of(v, a, b)
    }
}

} // verus!
