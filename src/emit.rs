use vstd::prelude::*;
use crate::chars::{chars_of, push_char, push_range};
use crate::{pairs, Export};

verus! {

/// Characters that keep a value from standing bare on the right of `=`.
pub open spec fn is_special(c: char) -> bool {
    c == ' ' || c == '"' || c == '\'' || c == '$' || c == '\\'
}

pub open spec fn needs_quotes(v: Seq<char>) -> bool {
    exists|i: int| 0 <= i < v.len() && is_special(#[trigger] v[i])
}

pub open spec fn escape_char(c: char) -> Seq<char> {
    if c == '\\' {
        seq!['\\', '\\']
    } else if c == '"' {
        seq!['\\', '"']
    } else {
        seq![c]
    }
}

/// The body of a double-quoted literal: backslashes doubled, double quotes escaped.
pub open spec fn escaped(v: Seq<char>) -> Seq<char>
    decreases v.len(),
{
    if v.len() == 0 {
        seq![]
    } else {
        escaped(v.drop_last()) + escape_char(v.last())
    }
}

/// How a value is written on the right of `=`.
pub open spec fn render(v: Seq<char>) -> Seq<char> {
    if v.len() == 0 {
        seq!['"', '"']
    } else if needs_quotes(v) {
        seq!['"'] + escaped(v) + seq!['"']
    } else {
        v
    }
}

/// `$env.` followed by the name.
pub open spec fn target(name: Seq<char>) -> Seq<char> {
    seq!['$', 'e', 'n', 'v', '.'] + name
}

/// The assignment line for one `(name, value)` pair.
pub open spec fn line(p: (Seq<char>, Seq<char>)) -> Seq<char> {
    target(p.0) + seq![' ', '=', ' '] + render(p.1)
}

/// One line per pair, in order, joined by newlines.
pub open spec fn script(ps: Seq<(Seq<char>, Seq<char>)>) -> Seq<char>
    decreases ps.len(),
{
    if ps.len() == 0 {
        seq![]
    } else if ps.len() == 1 {
        line(ps[0])
    } else {
        script(ps.drop_last()) + seq!['\n'] + line(ps.last())
    }
}

fn is_special_char(c: char) -> (r: bool)
    ensures
        r == is_special(c),
{
    c == ' ' || c == '"' || c == '\'' || c == '$' || c == '\\'
}

fn has_special(v: &Vec<char>) -> (r: bool)
    ensures
        r == needs_quotes(v@),
{
    let mut i: usize = 0;
    while i < v.len()
        invariant
            i <= v@.len(),
            forall|j: int| 0 <= j < i ==> !is_special(#[trigger] v@[j]),
        decreases v.len() - i,
    {
        if is_special_char(v[i]) {
            return true;
        }
        i = i + 1;
    }
    false
}

fn push_rendered(out: &mut String, v: &Vec<char>)
    ensures
        final(out)@ == old(out)@ + render(v@),
{
    if v.len() == 0 {
        push_char(out, '"');
        push_char(out, '"');
        assert(out@ =~= old(out)@ + render(v@));
    } else if has_special(v) {
        push_char(out, '"');
        let ghost start = out@;
        let mut i: usize = 0;
        while i < v.len()
            invariant
                i <= v@.len(),
                out@ == start + escaped(v@.take(i as int)),
            decreases v.len() - i,
        {
            let c = v[i];
            if c == '\\' {
                push_char(out, '\\');
                push_char(out, '\\');
            } else if c == '"' {
                push_char(out, '\\');
                push_char(out, '"');
            } else {
                push_char(out, c);
            }
            assert(v@.take(i + 1).drop_last() =~= v@.take(i as int));
            assert(out@ =~= start + escaped(v@.take(i + 1)));
            i = i + 1;
        }
        push_char(out, '"');
        assert(v@.take(v.len() as int) =~= v@);
        assert(out@ =~= old(out)@ + render(v@));
    } else {
        push_range(out, v, 0, v.len());
        assert(v@.subrange(0, v.len() as int) =~= v@);
    }
}

fn push_line(out: &mut String, e: &Export)
    ensures
        final(out)@ == old(out)@ + line(e@),
{
    push_char(out, '$');
    push_char(out, 'e');
    push_char(out, 'n');
    push_char(out, 'v');
    push_char(out, '.');
    let name = chars_of(e.name.as_str());
    push_range(out, &name, 0, name.len());
    push_char(out, ' ');
    push_char(out, '=');
    push_char(out, ' ');
    let value = chars_of(e.value.as_str());
    push_rendered(out, &value);
    assert(name@.subrange(0, name@.len() as int) =~= e.name@);
    assert(out@ =~= old(out)@ + line(e@));
}

/// Writes each export as a `$env.NAME = VALUE` line, in order, joined by
/// newlines. A value that is empty, or holds a space, a quote, `$` or a
/// backslash, is written in double quotes with backslashes doubled and
/// double quotes escaped; any other value is written bare.
pub fn exports_to_nushell(exports: Vec<Export>) -> (r: String)
    ensures
        r@ == script(pairs(exports@)),
{
    let mut out = String::new();
    let mut i: usize = 0;
    while i < exports.len()
        invariant
            i <= exports@.len(),
            out@ == script(pairs(exports@.take(i as int))),
        decreases exports.len() - i,
    {
        if i > 0 {
            push_char(&mut out, '\n');
        }
        push_line(&mut out, &exports[i]);
        let ghost ps = pairs(exports@.take(i + 1));
        assert(ps.drop_last() =~= pairs(exports@.take(i as int)));
        assert(ps.last() == exports@[i as int]@);
        assert(out@ =~= script(ps));
        i = i + 1;
    }
    assert(exports@.take(exports.len() as int) =~= exports@);
    out
}

} // verus!
