//! What is read of names, literals and comments.

use crate::comments::{comment_end, uncommented};
use crate::error::ErrorM;
use crate::laws::tokens::{inside, written};
use crate::state::{group_steps, PS};
use crate::text::{
    alphabetic, alphanumeric, drop_space, ident_char, joined, skip_space, trimmed, white_space,
};
use crate::tokens::{
    comment_rest, export_at, export_rest, formal_comment_at, letters_end, line_end, literal_rest,
    run_end, ws_end,
};
use vstd::prelude::*;

verus! {

broadcast use {group_steps, crate::tokens::group_lexer};

proof fn lemma_run_of(src: Seq<char>, i: int, e: int)
    requires
        0 <= i <= e <= src.len(),
        forall|j: int| i <= j < e ==> ident_char(#[trigger] src[j]),
        e < src.len() ==> !ident_char(src[e]),
    ensures
        run_end(src, i) == e,
    decreases e - i,
{
    if i < e {
        lemma_run_of(src, i + 1, e);
    }
}

/// A word that is not reserved is read as an identifier where it stands: it
/// starts with a letter or a digit, goes on with letters, digits and
/// underscores, and ends where they end.
pub proof fn law_identifiers_are_read(s: PS, w: Seq<char>)
    requires
        inside(s),
        w.len() > 0,
        alphanumeric(w[0]),
        forall|i: int| 0 <= i < w.len() ==> ident_char(#[trigger] w[i]),
        written(s.src, ws_end(s.src, s.at), w),
        ws_end(s.src, s.at) + w.len() < s.src.len() ==> !ident_char(
            s.src[ws_end(s.src, s.at) + w.len()],
        ),
    ensures
        w != "in"@ && w != "let"@ && w != "rule"@ && w != "diff"@ ==> s.ident() == (
            Ok::<Seq<char>, ErrorM>(w),
            s.to(ws_end(s.src, ws_end(s.src, s.at) + w.len())),
        ),
        w == "in"@ || w == "let"@ || w == "rule"@ || w == "diff"@ ==> s.ident().0 is Err,
{
    reveal(PS::ident);
    reveal(PS::name);
    reveal(PS::reserved_error);
    let b = ws_end(s.src, s.at);
    let e = b + w.len();
    assert(s.src[b] == w[0]);
    assert forall|j: int| b + 1 <= j < e implies ident_char(#[trigger] s.src[j]) by {
        assert(ident_char(w[j - b]));
    }
    lemma_run_of(s.src, b + 1, e);
    assert(s.src.subrange(b, e) =~= w);
    crate::tokens::lemma_ws_end_idempotent(s.src, s.at);
}

/// How a character is written in a string literal.
pub open spec fn spelled(c: char) -> Seq<char> {
    if c == '\n' {
        seq!['\\', 'n']
    } else if c == '\t' {
        seq!['\\', 't']
    } else if c == '\r' {
        seq!['\\', 'r']
    } else if c == '"' {
        seq!['\\', '"']
    } else if c == '\\' {
        seq!['\\', '\\']
    } else {
        seq![c]
    }
}

pub open spec fn spelled_out(w: Seq<char>) -> Seq<char>
    decreases w.len(),
{
    if w.len() == 0 {
        Seq::empty()
    } else {
        spelled(w[0]) + spelled_out(w.drop_first())
    }
}

proof fn lemma_literal(src: Seq<char>, i: int, w: Seq<char>, acc: Seq<char>)
    requires
        0 <= i,
        written(src, i, spelled_out(w) + seq!['"']),
    ensures
        literal_rest(src, i, acc) == Some((acc + w, i + spelled_out(w).len() + 1)),
    decreases w.len(),
{
    let p = spelled_out(w) + seq!['"'];
    if w.len() == 0 {
        assert(p[0] == '"');
        assert(src[i] == '"');
        assert(acc + w =~= acc);
    } else {
        let f = spelled(w[0]);
        let r = spelled_out(w.drop_first()) + seq!['"'];
        assert(p =~= f + r);
        assert(src[i] == p[0]);
        assert(p[0] == f[0]);
        if f.len() == 2 {
            assert(src[i + 1] == p[1]);
            assert(p[1] == f[1]);
        }
        assert forall|j: int| i + f.len() <= j < i + f.len() + r.len() implies #[trigger] src[j]
            == r[j - (i + f.len())] by {
            assert(src[j] == p[j - i]);
        }
        lemma_literal(src, i + f.len(), w.drop_first(), acc.push(w[0]));
        assert(acc.push(w[0]) + w.drop_first() =~= acc + w);
    }
}

/// A string literal holds the text that is spelled out between its quotes.
pub proof fn law_string_literals(s: PS, w: Seq<char>)
    requires
        inside(s),
        written(s.src, ws_end(s.src, s.at), seq!['"'] + (spelled_out(w) + seq!['"'])),
    ensures
        s.literal() == (
            Some(w),
            s.to(ws_end(s.src, ws_end(s.src, s.at) + spelled_out(w).len() + 2)),
        ),
{
    reveal(PS::literal);
    let b = ws_end(s.src, s.at);
    let r = spelled_out(w) + seq!['"'];
    let p = seq!['"'] + r;
    assert(s.src[b] == p[0]);
    assert forall|j: int| b + 1 <= j < b + 1 + r.len() implies #[trigger] s.src[j] == r[j - (b
        + 1)] by {
        assert(s.src[j] == p[j - b]);
    }
    lemma_literal(s.src, b + 1, w, Seq::empty());
    assert(Seq::empty() + w =~= w);
}

proof fn lemma_export(src: Seq<char>, i: int, w: Seq<char>, acc: Seq<char>)
    requires
        written(src, i, w + seq!['"']),
        forall|j: int| 0 <= j < w.len() ==> #[trigger] w[j] != '"' && w[j] != '\\',
    ensures
        export_rest(src, i, acc) == Some((acc + w, i + w.len() + 1)),
    decreases w.len(),
{
    let p = w + seq!['"'];
    assert(src[i] == p[0]);
    if w.len() == 0 {
        assert(acc + w =~= acc);
    } else {
        let r = w.drop_first();
        assert forall|j: int| i + 1 <= j < i + 1 + r.len() + 1 implies #[trigger] src[j] == (r
            + seq!['"'])[j - (i + 1)] by {
            assert(src[j] == p[j - i]);
        }
        assert forall|j: int| 0 <= j < r.len() implies #[trigger] r[j] != '"' && r[j] != '\\' by {
            assert(r[j] == w[j + 1]);
        }
        lemma_export(src, i + 1, r, acc.push(w[0]));
        assert(acc.push(w[0]) + r =~= acc + w);
    }
}

/// A body that is exported is the text between its quotes, line breaks and all.
pub proof fn law_exported_bodies(src: Seq<char>, i: int, w: Seq<char>)
    requires
        0 <= i <= src.len(),
        written(src, ws_end(src, i), seq!['"'] + (w + seq!['"'])),
        forall|j: int| 0 <= j < w.len() ==> #[trigger] w[j] != '"' && w[j] != '\\',
    ensures
        export_at(src, i) == Some((w, ws_end(src, ws_end(src, i) + w.len() + 2))),
{
    let b = ws_end(src, i);
    let r = w + seq!['"'];
    let p = seq!['"'] + r;
    assert(src[b] == p[0]);
    assert forall|j: int| b + 1 <= j < b + 1 + r.len() implies #[trigger] src[j] == r[j - (b
        + 1)] by {
        assert(src[j] == p[j - b]);
    }
    lemma_export(src, b + 1, w, Seq::empty());
    assert(Seq::empty() + w =~= w);
}

proof fn lemma_comment(src: Seq<char>, i: int, w: Seq<char>, acc: Seq<char>)
    requires
        written(src, i, w + seq!['*', '}']),
        forall|j: int| 0 <= j < w.len() ==> #[trigger] w[j] != '*' && w[j] != '\\',
    ensures
        comment_rest(src, i, acc) == Some((acc + w, i + w.len() + 2)),
    decreases w.len(),
{
    let p = w + seq!['*', '}'];
    assert(src[i] == p[0]);
    if w.len() == 0 {
        assert(src[i + 1] == p[1]);
        assert(acc + w =~= acc);
    } else {
        let r = w.drop_first();
        assert forall|j: int| i + 1 <= j < i + 1 + r.len() + 2 implies #[trigger] src[j] == (r
            + seq!['*', '}'])[j - (i + 1)] by {
            assert(src[j] == p[j - i]);
        }
        assert forall|j: int| 0 <= j < r.len() implies #[trigger] r[j] != '*' && r[j] != '\\' by {
            assert(r[j] == w[j + 1]);
        }
        lemma_comment(src, i + 1, r, acc.push(w[0]));
        assert(acc.push(w[0]) + r =~= acc + w);
    }
}

proof fn lemma_letters_of(src: Seq<char>, i: int, e: int)
    requires
        0 <= i <= e <= src.len(),
        forall|j: int| i <= j < e ==> alphabetic(#[trigger] src[j]),
        e < src.len() ==> !alphabetic(src[e]),
    ensures
        letters_end(src, i) == e,
    decreases e - i,
{
    if i < e {
        lemma_letters_of(src, i + 1, e);
    }
}

/// A formal comment is a header of letters and the text between `{*` and `*}`.
pub proof fn law_formal_comments(src: Seq<char>, i: int, header: Seq<char>, body: Seq<char>)
    requires
        0 <= i <= src.len(),
        header.len() > 0,
        forall|j: int| 0 <= j < header.len() ==> alphabetic(#[trigger] header[j]),
        forall|j: int| 0 <= j < body.len() ==> #[trigger] body[j] != '*' && body[j] != '\\',
        written(src, ws_end(src, i), header),
        written(src, ws_end(src, i) + header.len(), seq!['{', '*'] + (body + seq!['*', '}'])),
    ensures
        formal_comment_at(src, i) == Some(
            (header, body, ws_end(src, ws_end(src, i) + header.len() + body.len() + 4)),
        ),
{
    let b = ws_end(src, i);
    let h = b + header.len();
    let r = body + seq!['*', '}'];
    let p = seq!['{', '*'] + r;
    assert(src[h] == p[0] && src[h + 1] == p[1]);
    assert forall|j: int| b <= j < h implies alphabetic(#[trigger] src[j]) by {
        assert(src[j] == header[j - b]);
    }
    assert(!alphabetic('{')) by {
        reveal(alphabetic);
    }
    lemma_letters_of(src, b, h);
    assert(src.subrange(b, h) =~= header);
    assert forall|j: int| h + 2 <= j < h + 2 + r.len() implies #[trigger] src[j] == r[j - (h
        + 2)] by {
        assert(src[j] == p[j - h]);
    }
    lemma_comment(src, h + 2, body, Seq::empty());
    assert(Seq::empty() + body =~= body);
}

proof fn lemma_skip(w: Seq<char>, i: int)
    requires
        0 <= i <= w.len(),
    ensures
        i <= skip_space(w, i) <= w.len(),
        forall|j: int| i <= j < skip_space(w, i) ==> white_space(#[trigger] w[j]),
        skip_space(w, i) < w.len() ==> !white_space(w[skip_space(w, i)]),
    decreases w.len() - i,
{
    if i < w.len() && white_space(w[i]) {
        lemma_skip(w, i + 1);
    }
}

proof fn lemma_drop(w: Seq<char>, from: int, i: int)
    requires
        0 <= from <= i <= w.len(),
    ensures
        from <= drop_space(w, from, i) <= i,
        forall|j: int| drop_space(w, from, i) <= j < i ==> white_space(#[trigger] w[j]),
        drop_space(w, from, i) > from ==> !white_space(w[drop_space(w, from, i) - 1]),
    decreases i,
{
    if from < i && white_space(w[i - 1]) {
        lemma_drop(w, from, i - 1);
    }
}

/// Trimming takes the white space off both ends, and nothing else.
pub proof fn law_trimming(w: Seq<char>)
    ensures
        trimmed(w).len() > 0 ==> !white_space(trimmed(w)[0]) && !white_space(trimmed(w).last()),
        exists|a: int, b: int|
            0 <= a <= b <= w.len() && #[trigger] w.subrange(a, b) == trimmed(w) && (forall|j: int|
                0 <= j < a ==> white_space(#[trigger] w[j])) && (forall|j: int|
                b <= j < w.len() ==> white_space(#[trigger] w[j])),
{
    lemma_skip(w, 0);
    let a = skip_space(w, 0);
    lemma_drop(w, a, w.len() as int);
    let b = drop_space(w, a, w.len() as int);
    assert(w.subrange(a, b) == trimmed(w));
}

/// Texts are joined with the separator between each two of them.
pub proof fn law_joining(v: Seq<Seq<char>>, x: Seq<char>, sep: Seq<char>)
    ensures
        joined(Seq::empty(), sep).len() == 0,
        v.len() == 0 ==> joined(v.push(x), sep) == x,
        v.len() > 0 ==> joined(v.push(x), sep) == joined(v, sep) + sep + x,
{
    assert(v.push(x).drop_last() =~= v);
}

/// Comments are taken out of the text of a lemma: a line comment up to the end
/// of its line, a block comment up to its closing, each with the line break
/// before it; any other character stays.
pub proof fn law_comments_are_taken_out(cs: Seq<char>, i: int)
    requires
        0 <= i < cs.len(),
    ensures
        i + 1 < cs.len() && cs[i] == '/' && cs[i + 1] == '/' ==> uncommented(cs, i) == uncommented(
            cs,
            line_end(cs, i + 2),
        ),
        i + 1 < cs.len() && cs[i] == '/' && cs[i + 1] == '*' ==> uncommented(cs, i) == uncommented(
            cs,
            comment_end(cs, i + 2),
        ),
        i + 2 < cs.len() && cs[i] == '\n' && cs[i + 1] == '/' && cs[i + 2] == '/' ==> uncommented(
            cs,
            i,
        ) == uncommented(cs, line_end(cs, i + 3)),
        cs[i] != '/' && cs[i] != '\n' ==> uncommented(cs, i) == seq![cs[i]] + uncommented(
            cs,
            i + 1,
        ),
        cs[i] == '\n' && (i + 1 == cs.len() || cs[i + 1] != '/') ==> uncommented(cs, i) == seq![
            '\n',
        ] + uncommented(cs, i + 1),
{
}

} // verus!
