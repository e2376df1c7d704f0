use vstd::prelude::*;
use crate::chars::{chars_of, string_of, trim, trim_bounds};
use crate::value::{decode, decode_value};
use crate::{pairs, Export};

verus! {

pub open spec fn is_quote(c: char) -> bool {
    c == '"' || c == '\''
}

/// `p` is the position of the first `c` in `s`.
pub open spec fn first_at(s: Seq<char>, c: char, p: int) -> bool {
    0 <= p < s.len() && s[p] == c && forall|j: int| 0 <= j < p ==> s[j] != c
}

/// The pair a token stands for: the name before its first `=` and the
/// decoded value after it. A token without `=` stands for nothing.
pub open spec fn assignment(tok: Seq<char>) -> Seq<(Seq<char>, Seq<char>)> {
    if exists|p: int| first_at(tok, '=', p) {
        let p = choose|p: int| first_at(tok, '=', p);
        seq![(tok.take(p), decode_value(tok.skip(p + 1)))]
    } else {
        seq![]
    }
}

/// The pairs of the rest `s` of a statement's assignments, given the token
/// read so far and the quote that is open, if any. Unquoted spaces and tabs
/// end a token; a quote closes at the next one of its kind unless the token
/// read so far ends with a backslash.
pub open spec fn scan_from(s: Seq<char>, tok: Seq<char>, open: Option<char>) -> Seq<
    (Seq<char>, Seq<char>),
>
    decreases s.len(),
{
    if s.len() == 0 {
        assignment(tok)
    } else {
        let c = s[0];
        let rest = s.skip(1);
        match open {
            None => {
                if is_quote(c) {
                    scan_from(rest, tok.push(c), Some(c))
                } else if c == ' ' || c == '\t' {
                    assignment(tok) + scan_from(rest, seq![], None)
                } else {
                    scan_from(rest, tok.push(c), None)
                }
            },
            Some(q) => {
                if c == q && !(tok.len() > 0 && tok.last() == '\\') {
                    scan_from(rest, tok.push(c), None)
                } else {
                    scan_from(rest, tok.push(c), Some(q))
                }
            },
        }
    }
}

/// The pairs of the assignments that follow the `export` keyword.
pub open spec fn scan(content: Seq<char>) -> Seq<(Seq<char>, Seq<char>)> {
    scan_from(content, seq![], None)
}

pub open spec fn keyword() -> Seq<char> {
    seq!['e', 'x', 'p', 'o', 'r', 't']
}

/// The pairs of one statement: it counts once trimmed it starts with
/// `export`; what follows the keyword, trimmed, holds its assignments.
pub open spec fn statement(seg: Seq<char>) -> Seq<(Seq<char>, Seq<char>)> {
    let t = trim(seg);
    if t.len() >= 6 && t.take(6) == keyword() {
        scan(trim(t.skip(6)))
    } else {
        seq![]
    }
}

/// The statements of the rest `s` of the text, given the statement read so
/// far: a newline or `&&` ends a statement.
pub open spec fn segments_from(s: Seq<char>, cur: Seq<char>) -> Seq<Seq<char>>
    decreases s.len(),
{
    if s.len() == 0 {
        seq![cur]
    } else if s[0] == '\n' {
        seq![cur] + segments_from(s.skip(1), seq![])
    } else if s.len() >= 2 && s[0] == '&' && s[1] == '&' {
        seq![cur] + segments_from(s.skip(2), seq![])
    } else {
        segments_from(s.skip(1), cur.push(s[0]))
    }
}

/// The text's statements: its lines, each cut at every `&&`, in order.
pub open spec fn segments(s: Seq<char>) -> Seq<Seq<char>> {
    segments_from(s, seq![])
}

pub open spec fn statements(ss: Seq<Seq<char>>) -> Seq<(Seq<char>, Seq<char>)>
    decreases ss.len(),
{
    if ss.len() == 0 {
        seq![]
    } else {
        statement(ss[0]) + statements(ss.skip(1))
    }
}

/// The pairs that a text's export statements assign, in order.
pub open spec fn exports_of(text: Seq<char>) -> Seq<(Seq<char>, Seq<char>)> {
    statements(segments(text))
}

proof fn lemma_pairs_push(es: Seq<Export>, e: Export)
    ensures
        pairs(es.push(e)) == pairs(es).push(e@),
{
    assert(pairs(es.push(e)) =~= pairs(es).push(e@));
}

/// Appends to `out` the pair that the token `tok` stands for, if any.
fn push_assignment(tok: &Vec<char>, out: &mut Vec<Export>)
    ensures
        pairs(final(out)@) == pairs(old(out)@) + assignment(tok@),
{
    let mut p: usize = 0;
    while p < tok.len() && tok[p] != '='
        invariant
            p <= tok@.len(),
            forall|j: int| 0 <= j < p ==> tok@[j] != '=',
        decreases tok.len() - p,
    {
        p = p + 1;
    }
    if p < tok.len() {
        assert(first_at(tok@, '=', p as int));
        let ghost q = choose|q: int| first_at(tok@, '=', q);
        assert(q == p);
        let name = string_of(tok, 0, p);
        let value = decode(tok, p + 1, tok.len());
        assert(tok@.subrange(0, p as int) =~= tok@.take(p as int));
        assert(tok@.subrange(p + 1, tok@.len() as int) =~= tok@.skip(p + 1));
        let e = Export { name, value };
        proof {
            lemma_pairs_push(old(out)@, e);
        }
        out.push(e);
        assert(pairs(out@) =~= pairs(old(out)@) + assignment(tok@));
    } else {
        assert(!exists|q: int| first_at(tok@, '=', q));
        assert(pairs(out@) =~= pairs(old(out)@) + assignment(tok@));
    }
}

/// Appends to `out` the pairs of the assignments in `v[lo..hi]`.
fn scan_into(v: &Vec<char>, lo: usize, hi: usize, out: &mut Vec<Export>)
    requires
        lo <= hi <= v@.len(),
    ensures
        pairs(final(out)@) == pairs(old(out)@) + scan(v@.subrange(lo as int, hi as int)),
{
    let mut tok: Vec<char> = Vec::new();
    let mut open: Option<char> = None;
    let mut i: usize = lo;
    while i < hi
        invariant
            lo <= i <= hi <= v@.len(),
            pairs(out@) + scan_from(v@.subrange(i as int, hi as int), tok@, open) == pairs(
                old(out)@,
            ) + scan(v@.subrange(lo as int, hi as int)),
        decreases hi - i,
    {
        let ghost s = v@.subrange(i as int, hi as int);
        let ghost before = pairs(out@);
        let ghost tok0 = tok@;
        let c = v[i];
        assert(s.skip(1) =~= v@.subrange(i + 1, hi as int));
        match open {
            None => {
                if c == '"' || c == '\'' {
                    tok.push(c);
                    open = Some(c);
                } else if c == ' ' || c == '\t' {
                    push_assignment(&tok, out);
                    tok = Vec::new();
                    assert(pairs(out@) + scan_from(s.skip(1), tok@, open) =~= before
                        + scan_from(s, tok0, None));
                } else {
                    tok.push(c);
                }
            },
            Some(q) => {
                let escaped = tok.len() > 0 && tok[tok.len() - 1] == '\\';
                tok.push(c);
                if c == q && !escaped {
                    open = None;
                }
            },
        }
        i = i + 1;
    }
    assert(v@.subrange(i as int, hi as int) =~= Seq::<char>::empty());
    push_assignment(&tok, out);
    assert(pairs(out@) =~= pairs(old(out)@) + scan(v@.subrange(lo as int, hi as int)));
}

/// Appends to `out` the pairs of the statement `v[lo..hi]`.
fn statement_into(v: &Vec<char>, lo: usize, hi: usize, out: &mut Vec<Export>)
    requires
        lo <= hi <= v@.len(),
    ensures
        pairs(final(out)@) == pairs(old(out)@) + statement(v@.subrange(lo as int, hi as int)),
{
    let (a, b) = trim_bounds(v, lo, hi);
    let ghost t = v@.subrange(a as int, b as int);
    if b - a >= 6 && v[a] == 'e' && v[a + 1] == 'x' && v[a + 2] == 'p' && v[a + 3] == 'o' && v[a
        + 4] == 'r' && v[a + 5] == 't' {
        assert(t.take(6) =~= keyword());
        let (c, d) = trim_bounds(v, a + 6, b);
        assert(t.skip(6) =~= v@.subrange(a + 6, b as int));
        scan_into(v, c, d, out);
    } else {
        assert(!(t.len() >= 6 && t.take(6) == keyword())) by {
            if t.len() >= 6 && t.take(6) == keyword() {
                assert(t.take(6)[0] == 'e' && t.take(6)[1] == 'x' && t.take(6)[2] == 'p');
                assert(t.take(6)[3] == 'o' && t.take(6)[4] == 'r' && t.take(6)[5] == 't');
            }
        }
        assert(pairs(out@) =~= pairs(old(out)@) + statement(v@.subrange(lo as int, hi as int)));
    }
}

/// The assignments of every `export` statement in `input`, in the order
/// they appear. Statements are separated by newlines and by `&&`; one
/// statement may assign several variables (`export A=1 B=2`). Text that is
/// not an export statement, and tokens without `=`, contribute nothing.
pub fn parse_posix_exports(input: &str) -> (r: Vec<Export>)
    ensures
        pairs(r@) == exports_of(input@),
{
    let v = chars_of(input);
    let n = v.len();
    let mut out: Vec<Export> = Vec::new();
    let mut start: usize = 0;
    let mut i: usize = 0;
    assert(v@.subrange(0, n as int) =~= v@);
    assert(v@.subrange(0, 0) =~= Seq::<char>::empty());
    assert(pairs(out@) =~= Seq::<(Seq<char>, Seq<char>)>::empty());
    while i < n
        invariant
            n == v@.len(),
            v@ == input@,
            start <= i <= n,
            pairs(out@) + statements(
                segments_from(v@.subrange(i as int, n as int), v@.subrange(start as int, i as int)),
            ) == exports_of(input@),
        decreases n - i,
    {
        let ghost s = v@.subrange(i as int, n as int);
        let ghost cur = v@.subrange(start as int, i as int);
        let ghost before = pairs(out@);
        if v[i] == '\n' || (v[i] == '&' && i + 1 < n && v[i + 1] == '&') {
            let step: usize = if v[i] == '\n' { 1 } else { 2 };
            statement_into(&v, start, i, &mut out);
            assert(s.skip(step as int) =~= v@.subrange(i + step, n as int));
            assert(v@.subrange(i + step, i + step) =~= Seq::<char>::empty());
            let ghost rest = segments_from(s.skip(step as int), seq![]);
            assert((seq![cur] + rest).skip(1) =~= rest);
            assert(pairs(out@) + statements(rest) =~= before + statements(seq![cur] + rest));
            i = i + step;
            start = i;
        } else {
            assert(s.skip(1) =~= v@.subrange(i + 1, n as int));
            assert(cur.push(v@[i as int]) =~= v@.subrange(start as int, i + 1));
            i = i + 1;
        }
    }
    let ghost cur = v@.subrange(start as int, n as int);
    assert(v@.subrange(n as int, n as int) =~= Seq::<char>::empty());
    assert(seq![cur].skip(1) =~= Seq::<Seq<char>>::empty());
    assert(segments_from(v@.subrange(n as int, n as int), cur) == seq![cur]);
    assert(statements(Seq::<Seq<char>>::empty()) =~= Seq::<(Seq<char>, Seq<char>)>::empty());
    assert(statements(seq![cur]) =~= statement(cur));
    statement_into(&v, start, n, &mut out);
    assert(pairs(out@) =~= exports_of(input@));
    out
}

} // verus!
