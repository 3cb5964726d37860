//! What the tokens have to do with the text they are read from.

use crate::basics::{at_join, dashed_ident, dashed_rest};
use crate::state::{group_steps, Step, PS};
use crate::text::{ascii_digit, ident_char, white_space};
use crate::tokens::{
    block_end, digits_end, line_end, number_value, quote_end, subscript_at, subscript_value,
    subscripts_end, ws_end,
};
use vstd::prelude::*;

verus! {

broadcast use {group_steps, crate::tokens::group_lexer};

/// Whether the characters of `p` are those at position `b`, one by one.
pub open spec fn written(src: Seq<char>, b: int, p: Seq<char>) -> bool {
    &&& 0 <= b
    &&& b + p.len() <= src.len()
    &&& forall|i: int| b <= i < b + p.len() ==> #[trigger] src[i] == p[i - b]
}

/// Whether the step `r` reads `v` at `s` and leads on to `t`.
pub open spec fn reads<T>(s: PS, r: Step<T>, v: T, t: PS) -> bool {
    r.0 == Ok::<T, crate::error::ErrorM>(v) && r.1 == t && s.fwd(t)
}

/// Whether one of two tokens comes next, and the state behind it.
pub open spec fn one_of(s: PS, p: Seq<char>, q: Seq<char>) -> bool {
    s.punct(p).0 || s.punct(q).0
}

pub open spec fn behind(s: PS, p: Seq<char>, q: Seq<char>) -> PS {
    if s.punct(p).0 {
        s.punct(p).1
    } else {
        s.punct(q).1
    }
}

/// Whether a word or a token comes next, and the state behind it.
pub open spec fn word_or_token(s: PS, k: Seq<char>, p: Seq<char>) -> bool {
    s.kw(k).0 || s.punct(p).0
}

pub open spec fn behind_word(s: PS, k: Seq<char>, p: Seq<char>) -> PS {
    if s.kw(k).0 {
        s.kw(k).1
    } else {
        s.punct(p).1
    }
}

/// Whether the state is inside its text.
pub open spec fn inside(s: PS) -> bool {
    0 <= s.at <= s.src.len()
}

pub proof fn lemma_one_of(s: PS, p: Seq<char>, q: Seq<char>)
    requires
        inside(s),
    ensures
        s.either(p, q).0 == one_of(s, p, q),
        one_of(s, p, q) ==> s.either(p, q).1 == behind(s, p, q),
        !one_of(s, p, q) ==> s.either(p, q).1 == s.ws(),
        s.ws().either(p, q) == s.either(p, q),
        s.ws().ws() == s.ws(),
{
    reveal(PS::punct);
    reveal(PS::either);
    crate::tokens::lemma_ws_end_idempotent(s.src, s.at);
}

pub proof fn lemma_word_or_token(s: PS, k: Seq<char>, p: Seq<char>)
    requires
        inside(s),
    ensures
        s.word_or(k, p).0 == word_or_token(s, k, p),
        word_or_token(s, k, p) ==> s.word_or(k, p).1 == behind_word(s, k, p),
        !word_or_token(s, k, p) ==> s.word_or(k, p).1 == s.ws(),
        s.ws().word_or(k, p).0 == s.word_or(k, p).0,
        s.word_or(k, p).0 ==> s.ws().word_or(k, p) == s.word_or(k, p),
        s.ws().ws() == s.ws(),
{
    reveal(PS::punct);
    reveal(PS::kw);
    reveal(PS::word_or);
    crate::tokens::lemma_ws_end_idempotent(s.src, s.at);
}

/// White space before a token makes no difference.
pub proof fn lemma_spaced(s: PS, p: Seq<char>)
    requires
        inside(s),
    ensures
        s.ws().punct(p) == s.punct(p),
        s.ws().kw(p).0 == s.kw(p).0,
        s.kw(p).0 ==> s.ws().kw(p) == s.kw(p),
        !s.punct(p).0 ==> s.punct(p).1 == s.ws(),
        s.ws().ws() == s.ws(),
        s.ws().name().0 == s.name().0,
        s.name().0 is Some ==> s.ws().name() == s.name(),
        s.ident().0 is Ok ==> s.ws().ident() == s.ident(),
{
    reveal(PS::punct);
    reveal(PS::kw);
    reveal(PS::name);
    reveal(PS::ident);
    crate::tokens::lemma_ws_end_idempotent(s.src, s.at);
}

proof fn lemma_written(src: Seq<char>, b: int, p: Seq<char>)
    requires
        p.len() > 0,
    ensures
        crate::tokens::sees(src, b, p) == written(src, b, p),
{
    if written(src, b, p) {
        assert(src.subrange(b, b + p.len()) =~= p);
    }
    if crate::tokens::sees(src, b, p) {
        assert forall|i: int| b <= i < b + p.len() implies #[trigger] src[i] == p[i - b] by {
            assert(src.subrange(b, b + p.len())[i - b] == p[i - b]);
        }
    }
}

/// A token is read exactly where its characters stand behind the white space,
/// and the reading goes on behind it and the white space that follows. Where
/// it does not stand, nothing but white space is passed.
pub proof fn law_tokens_stand_in_the_text(s: PS, p: Seq<char>)
    requires
        0 <= s.at <= s.src.len(),
        p.len() > 0,
    ensures
        s.punct(p).0 <==> written(s.src, ws_end(s.src, s.at), p),
        s.punct(p).0 ==> s.punct(p).1 == s.to(ws_end(s.src, ws_end(s.src, s.at) + p.len())),
        !s.punct(p).0 ==> s.punct(p).1 == s.to(ws_end(s.src, s.at)),
{
    reveal(PS::punct);
    lemma_written(s.src, ws_end(s.src, s.at), p);
}

/// One of two tokens is read exactly where one of them stands, the first where
/// both do.
pub proof fn law_one_of_two_tokens(s: PS, p: Seq<char>, q: Seq<char>)
    requires
        0 <= s.at <= s.src.len(),
        p.len() > 0,
        q.len() > 0,
    ensures
        s.either(p, q).0 <==> s.punct(p).0 || s.punct(q).0,
        s.punct(p).0 ==> s.either(p, q).1 == s.punct(p).1,
        !s.punct(p).0 ==> s.either(p, q).1 == s.punct(q).1,
{
    reveal(PS::punct);
    reveal(PS::either);
    crate::tokens::lemma_ws_end_idempotent(s.src, s.at);
}

/// A word is read exactly where its characters stand behind the white space
/// and neither go on like an identifier nor are followed by a dash. Where it is
/// not read, nothing is passed.
pub proof fn law_words_stand_in_the_text(s: PS, k: Seq<char>)
    requires
        0 <= s.at <= s.src.len(),
        k.len() > 0,
        ident_char(k[k.len() - 1]),
    ensures
        ({
            let b = ws_end(s.src, s.at);
            let e = b + k.len();
            let n = ws_end(s.src, e);
            &&& s.kw(k).0 <==> written(s.src, b, k) && (e < s.src.len() ==> !ident_char(s.src[e]))
                && (n < s.src.len() ==> s.src[n] != '-')
            &&& s.kw(k).0 ==> s.kw(k).1 == s.to(n)
            &&& !s.kw(k).0 ==> s.kw(k).1 == s
        }),
{
    reveal(PS::kw);
    lemma_written(s.src, ws_end(s.src, s.at), k);
}

/// A symbol is read exactly where its characters stand behind the white space;
/// one that ends like an identifier must not go on like one.
pub proof fn law_symbols_stand_in_the_text(s: PS, p: Seq<char>)
    requires
        inside(s),
        p.len() > 0,
    ensures
        ({
            let b = ws_end(s.src, s.at);
            let e = b + p.len();
            &&& s.symbol(p).0 <==> written(s.src, b, p) && !(ident_char(p.last()) && e
                < s.src.len() && ident_char(s.src[e]))
            &&& s.symbol(p).0 ==> s.symbol(p).1 == s.to(ws_end(s.src, e))
            &&& !s.symbol(p).0 ==> s.symbol(p).1 == s
        }),
{
    reveal(PS::symbol);
    lemma_written(s.src, ws_end(s.src, s.at), p);
}

/// The number in subscript digits: the last digit counts once, and what stands
/// before it ten times.
pub proof fn law_subscripts_count_in_tens(src: Seq<char>, b: int, e: int, d: int)
    requires
        0 <= b < e <= src.len(),
        0 <= d <= 9,
        src[e - 1] as int == 0x2080 + d,
    ensures
        subscript_value(src, b, e) == subscript_value(src, b, e - 1) * 10 + d,
        subscript_value(src, b, b) == 0,
        subscript_at(src, b) matches Some((n, _)) ==> subscripts_end(src, b) > b && (0
            <= subscript_value(src, b, subscripts_end(src, b)) ==> n == subscript_value(
            src,
            b,
            subscripts_end(src, b),
        )),
{
}

/// A name with dashes in it: the parts on both sides of each dash, with the
/// dashes between them.
pub proof fn law_names_with_dashes(s: PS, acc: Seq<char>)
    ensures
        at_join(s) ==> (s.bump().ident().0 matches Ok(w) ==> dashed_rest(s, acc) == dashed_rest(
            s.bump().ident().1,
            acc + seq!['-'] + w,
        )),
        !at_join(s) ==> dashed_rest(s, acc) == (Ok::<Seq<char>, crate::error::ErrorM>(acc), s),
        s.ident().0 matches Ok(w) ==> dashed_ident(s) == dashed_rest(s.ident().1, w),
{
    if at_join(s) {
        if let Ok(w) = s.bump().ident().0 {
            assert(acc.push('-') + w =~= acc + seq!['-'] + w);
        }
    }
}

/// A word or a token is read exactly where one of the two stands.
pub proof fn law_a_word_or_a_token(s: PS, k: Seq<char>, p: Seq<char>)
    ensures
        s.word_or(k, p).0 <==> s.kw(k).0 || s.punct(p).0,
        s.kw(k).0 ==> s.word_or(k, p).1 == s.kw(k).1,
        !s.kw(k).0 ==> s.word_or(k, p).1 == s.punct(p).1,
{
    reveal(PS::word_or);
}

/// Whether the text is made of characters of identifiers.
pub open spec fn word(k: Seq<char>) -> bool {
    k.len() > 0 && forall|i: int| 0 <= i < k.len() ==> ident_char(#[trigger] k[i])
}

/// No two words are read at one place.
pub proof fn law_one_word_at_a_place(s: PS, j: Seq<char>, k: Seq<char>)
    requires
        inside(s),
        word(j),
        word(k),
        s.kw(j).0,
        s.kw(k).0,
    ensures
        j == k,
{
    law_words_stand_in_the_text(s, j);
    law_words_stand_in_the_text(s, k);
    let b = ws_end(s.src, s.at);
    if j.len() < k.len() {
        assert(s.src[b + j.len()] == k[j.len() as int]);
    } else if k.len() < j.len() {
        assert(s.src[b + k.len()] == j[k.len() as int]);
    } else {
        assert forall|i: int| 0 <= i < j.len() implies j[i] == k[i] by {
            assert(s.src[b + i] == j[i]);
            assert(s.src[b + i] == k[i]);
        }
        assert(j =~= k);
    }
}

/// White space is passed, a line comment up to the end of its line, and a block
/// comment up to where it is closed; any other character stops the passing.
pub proof fn law_white_space(src: Seq<char>, i: int)
    requires
        0 <= i < src.len(),
    ensures
        white_space(src[i]) ==> ws_end(src, i) == ws_end(src, i + 1),
        src[i] == ' ' || src[i] == '\n' || src[i] == '\t' || src[i] == '\r' ==> white_space(src[i]),
        src[i] == '/' && i + 1 < src.len() && src[i + 1] == '/' ==> ws_end(src, i) == ws_end(
            src,
            line_end(src, i + 2),
        ),
        src[i] == '/' && i + 1 < src.len() && src[i + 1] == '*' ==> ws_end(src, i) == ws_end(
            src,
            block_end(src, i + 2, 1),
        ),
        !white_space(src[i]) && src[i] != '/' ==> ws_end(src, i) == i,
        src[i] == '/' && (i + 1 == src.len() || (src[i + 1] != '/' && src[i + 1] != '*'))
            ==> ws_end(src, i) == i,
{
    reveal(white_space);
}

/// A line comment ends at the first line break, or with the text.
pub proof fn law_line_comments(src: Seq<char>, i: int)
    requires
        0 <= i <= src.len(),
    ensures
        i <= line_end(src, i) <= src.len(),
        forall|j: int| i <= j < line_end(src, i) ==> #[trigger] src[j] != '\n',
        line_end(src, i) < src.len() ==> src[line_end(src, i)] == '\n',
    decreases src.len() - i,
{
    if i < src.len() && src[i] != '\n' {
        law_line_comments(src, i + 1);
    }
}

/// The marks that open and close comments from `i` up to `j`, both read as
/// pairs of characters that do not overlap: how many more are open at `j`.
pub open spec fn open_at(src: Seq<char>, i: int, depth: int, j: int) -> int
    decreases src.len() - i,
{
    if i >= j || i < 0 || i >= src.len() {
        depth
    } else if i + 1 < src.len() && src[i] == '/' && src[i + 1] == '*' {
        open_at(src, i + 2, depth + 1, j)
    } else if i + 1 < src.len() && src[i] == '*' && src[i + 1] == '/' {
        open_at(src, i + 2, depth - 1, j)
    } else {
        open_at(src, i + 1, depth, j)
    }
}

/// A block comment ends where as many are closed as were opened, comments
/// inside it counted, and not before its last mark; else with the text.
pub proof fn law_block_comments(src: Seq<char>, i: int, depth: int)
    requires
        0 <= i <= src.len(),
        depth > 0,
    ensures
        i <= block_end(src, i, depth) <= src.len(),
        block_end(src, i, depth) < src.len() ==> open_at(
            src,
            i,
            depth,
            block_end(src, i, depth),
        ) == 0,
        block_end(src, i, depth) < src.len() ==> i + 2 <= block_end(src, i, depth)
            && src[block_end(src, i, depth) - 2] == '*' && src[block_end(src, i, depth) - 1]
            == '/',
    decreases src.len() - i,
{
    crate::tokens::lemma_block_end(src, i, depth);
    if i >= src.len() {
    } else if i + 1 < src.len() && src[i] == '/' && src[i + 1] == '*' {
        law_block_comments(src, i + 2, depth + 1);
    } else if i + 1 < src.len() && src[i] == '*' && src[i + 1] == '/' {
        if depth > 1 {
            law_block_comments(src, i + 2, depth - 1);
        } else {
            assert(block_end(src, i + 2, 0) == i + 2);
        }
    } else {
        law_block_comments(src, i + 1, depth);
    }
}

/// A number is read where a digit stands and the value of the run of digits
/// fits in 64 bits: it is that value.
pub proof fn law_numbers_stand_in_the_text(s: PS)
    requires
        0 <= s.at <= s.src.len(),
    ensures
        ({
            let b = ws_end(s.src, s.at);
            let e = digits_end(s.src, b);
            &&& b <= e <= s.src.len()
            &&& forall|j: int| b <= j < e ==> '0' <= #[trigger] s.src[j] <= '9'
            &&& e < s.src.len() ==> !('0' <= s.src[e] <= '9')
            &&& s.natural().0 is Some <==> b < e && number_value(s.src, b, e) <= u64::MAX
            &&& s.natural().0 matches Some(n) ==> n == number_value(s.src, b, e)
                && s.natural().1 == s.to(ws_end(s.src, e))
        }),
{
    reveal(PS::natural);
    lemma_digits(s.src, ws_end(s.src, s.at));
    lemma_value_positive(s.src, ws_end(s.src, s.at), digits_end(s.src, ws_end(s.src, s.at)));
}

proof fn lemma_digits(src: Seq<char>, b: int)
    requires
        0 <= b <= src.len(),
    ensures
        b <= digits_end(src, b) <= src.len(),
        forall|j: int| b <= j < digits_end(src, b) ==> '0' <= #[trigger] src[j] <= '9',
        digits_end(src, b) < src.len() ==> !('0' <= src[digits_end(src, b)] <= '9'),
    decreases src.len() - b,
{
    if b < src.len() && ascii_digit(src[b]) {
        lemma_digits(src, b + 1);
    }
}

proof fn lemma_value_positive(src: Seq<char>, b: int, e: int)
    requires
        forall|j: int| b <= j < e ==> '0' <= #[trigger] src[j] <= '9',
    ensures
        number_value(src, b, e) >= 0,
    decreases e - b,
{
    if b < e {
        lemma_value_positive(src, b, e - 1);
        assert('0' <= src[e - 1]);
    }
}

/// The value of a run of digits: the last digit counts once, and what stands
/// before it ten times.
pub proof fn law_digits_count_in_tens(src: Seq<char>, b: int, e: int, d: int)
    requires
        0 <= b < e <= src.len(),
        0 <= d <= 9,
        src[e - 1] as int == '0' as int + d,
    ensures
        number_value(src, b, e) == number_value(src, b, e - 1) * 10 + d,
        number_value(src, b, b) == 0,
{
}

/// A text in single quotes is what stands between the quotes: it is not empty,
/// holds no quote and no line break.
pub proof fn law_quoted_texts(s: PS)
    requires
        0 <= s.at <= s.src.len(),
    ensures
        s.quoted().0 matches Some(w) ==> {
            let b = ws_end(s.src, s.at);
            &&& w.len() > 0
            &&& written(s.src, b, seq!['\''] + w + seq!['\''])
            &&& forall|i: int| 0 <= i < w.len() ==> #[trigger] w[i] != '\'' && w[i] != '\n'
            &&& s.quoted().1 == s.to(ws_end(s.src, b + w.len() + 2))
        },
{
    reveal(PS::quoted);
    let b = ws_end(s.src, s.at);
    if let Some(w) = s.quoted().0 {
        lemma_quote(s.src, b + 1);
        let e = quote_end(s.src, b + 1);
        let p = seq!['\''] + w + seq!['\''];
        assert forall|i: int| b <= i < b + p.len() implies #[trigger] s.src[i] == p[i - b] by {
            if b < i <= b + w.len() {
                assert(w[i - b - 1] == s.src[i]);
            }
        }
        assert forall|i: int| 0 <= i < w.len() implies #[trigger] w[i] != '\'' && w[i] != '\n' by {
            assert(w[i] == s.src[b + 1 + i]);
        }
    }
}

proof fn lemma_quote(src: Seq<char>, i: int)
    requires
        0 <= i <= src.len(),
    ensures
        i <= quote_end(src, i) <= src.len(),
        forall|j: int| i <= j < quote_end(src, i) ==> #[trigger] src[j] != '\'' && src[j] != '\n',
    decreases src.len() - i,
{
    if i < src.len() && src[i] != '\'' && src[i] != '\n' {
        lemma_quote(src, i + 1);
    }
}

} // verus!
