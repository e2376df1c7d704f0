use vstd::prelude::*;
use crate::chars::{is_space, trim, trim_end, trim_start};
use crate::emit::{is_special, needs_quotes, render, script, target};
use crate::scan::{
    assignment, exports_of, first_at, is_quote, keyword, scan, scan_from, segments, segments_from,
    statement, statements,
};
use crate::value::decode_value;

verus! {

/// A character that may stand in a bare word: no white space, quote, `$`,
/// backslash or `&`.
pub open spec fn is_plain(c: char) -> bool {
    !is_space(c) && !is_special(c) && c != '&'
}

pub open spec fn all_plain(s: Seq<char>) -> bool {
    forall|i: int| 0 <= i < s.len() ==> is_plain(#[trigger] s[i])
}

/// The statement `export NAME=VALUE`.
pub open spec fn export_text(name: Seq<char>, value: Seq<char>) -> Seq<char> {
    keyword() + seq![' '] + name + seq!['='] + value
}

proof fn lemma_trim_plain_ends(s: Seq<char>)
    requires
        s.len() > 0,
        !is_space(s[0]),
        !is_space(s.last()),
    ensures
        trim(s) == s,
{
}

proof fn lemma_segments_single(s: Seq<char>, cur: Seq<char>)
    requires
        forall|i: int| 0 <= i < s.len() ==> s[i] != '\n' && s[i] != '&',
    ensures
        segments_from(s, cur) == seq![cur + s],
    decreases s.len(),
{
    if s.len() == 0 {
        assert(cur + s =~= cur);
    } else {
        assert(s[0] != '\n' && s[0] != '&');
        lemma_segments_single(s.skip(1), cur.push(s[0]));
        assert(cur.push(s[0]) + s.skip(1) =~= cur + s);
    }
}

proof fn lemma_scan_one_token(s: Seq<char>, tok: Seq<char>)
    requires
        forall|i: int| 0 <= i < s.len() ==> !is_quote(s[i]) && s[i] != ' ' && s[i] != '\t',
    ensures
        scan_from(s, tok, None) == assignment(tok + s),
    decreases s.len(),
{
    if s.len() == 0 {
        assert(tok + s =~= tok);
    } else {
        assert(!is_quote(s[0]) && s[0] != ' ' && s[0] != '\t');
        lemma_scan_one_token(s.skip(1), tok.push(s[0]));
        assert(tok.push(s[0]) + s.skip(1) =~= tok + s);
    }
}

proof fn lemma_plain_value_decodes(v: Seq<char>)
    requires
        v.len() > 0,
        all_plain(v),
    ensures
        decode_value(v) == v,
{
    assert(is_plain(v[0]) && is_plain(v[v.len() - 1]));
    lemma_trim_plain_ends(v);
}

/// A single export of a bare name and a non-empty bare value, neither of
/// which holds white space, quotes, `$`, backslashes or `&` (nor `=` in the
/// name), converts to exactly `$env.NAME = VALUE`.
pub proof fn lemma_single_plain_export(name: Seq<char>, value: Seq<char>)
    requires
        all_plain(name),
        forall|i: int| 0 <= i < name.len() ==> name[i] != '=',
        value.len() > 0,
        all_plain(value),
    ensures
        script(exports_of(export_text(name, value))) == target(name) + seq![' ', '=', ' '] + value,
{
    let text = export_text(name, value);
    let tok = name + seq!['='] + value;
    assert(text =~= keyword() + seq![' '] + tok);
    assert forall|i: int| 0 <= i < text.len() implies text[i] != '\n' && text[i] != '&' by {
        if i >= 7 + name.len() + 1 {
            assert(text[i] == value[i - 8 - name.len()]);
            assert(is_plain(value[i - 8 - name.len()]));
        } else if i >= 7 && i < 7 + name.len() {
            assert(text[i] == name[i - 7]);
            assert(is_plain(name[i - 7]));
        }
    }
    lemma_segments_single(text, seq![]);
    assert(seq![] + text =~= text);
    assert(segments(text) == seq![text]);
    assert(statements(Seq::<Seq<char>>::empty()) =~= Seq::<(Seq<char>, Seq<char>)>::empty());
    assert(seq![text].skip(1) =~= Seq::<Seq<char>>::empty());
    assert(statements(seq![text]) =~= statement(text));

    assert(is_plain(value[value.len() - 1]));
    assert(text.last() == value.last());
    lemma_trim_plain_ends(text);
    assert(text.take(6) =~= keyword());
    let after = text.skip(6);
    assert(after =~= seq![' '] + tok);
    assert(after.drop_first() =~= tok);
    assert(is_plain(tok[0])) by {
        if name.len() > 0 {
            assert(tok[0] == name[0]);
        }
    }
    assert(trim_start(tok) == tok);
    assert(trim_start(after) == tok);
    assert(tok.last() == value.last());
    assert(trim_end(tok) == tok);
    assert(trim(after) == tok);

    assert forall|i: int| 0 <= i < tok.len() implies !is_quote(tok[i]) && tok[i] != ' '
        && tok[i] != '\t' by {
        if i > name.len() {
            assert(tok[i] == value[i - name.len() - 1]);
            assert(is_plain(value[i - name.len() - 1]));
        } else if i < name.len() {
            assert(tok[i] == name[i]);
            assert(is_plain(name[i]));
        }
    }
    lemma_scan_one_token(tok, seq![]);
    assert(seq![] + tok =~= tok);
    assert(scan(tok) == assignment(tok));

    let p = name.len() as int;
    assert(first_at(tok, '=', p));
    let q = choose|q: int| first_at(tok, '=', q);
    assert(q == p) by {
        if q < p {
            assert(tok[q] == name[q]);
        }
    }
    assert(tok.take(p) =~= name);
    assert(tok.skip(p + 1) =~= value);
    lemma_plain_value_decodes(value);
    assert(exports_of(text) == seq![(name, value)]);

    assert(!needs_quotes(value)) by {
        if needs_quotes(value) {
            let i = choose|i: int| 0 <= i < value.len() && is_special(#[trigger] value[i]);
            assert(is_plain(value[i]));
        }
    }
    assert(render(value) == value);
}

/// A value without a space, quote, `$` or backslash, and without white
/// space at either end, is written in a form that decodes back to it.
pub proof fn lemma_plain_value_round_trip(v: Seq<char>)
    requires
        !needs_quotes(v),
        v.len() > 0 ==> !is_space(v[0]) && !is_space(v.last()),
    ensures
        decode_value(render(v)) == v,
{
    if v.len() == 0 {
        let r = seq!['"', '"'];
        assert(render(v) == r);
        lemma_trim_plain_ends(r);
        assert(r.subrange(1, 1) =~= Seq::<char>::empty());
        assert(v =~= Seq::<char>::empty());
    } else {
        assert(!is_special(v[0]));
        assert(!is_special(v[v.len() - 1]));
        lemma_trim_plain_ends(v);
    }
}

} // verus!
