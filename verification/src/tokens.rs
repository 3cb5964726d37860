//! What the tokens of a theory are.
//!
//! The input is a sequence of characters and a position in it. Every token is
//! described by a function of the two: where it ends and what it holds.

use crate::text::{alphanumeric, ascii_alpha, ascii_digit, ident_char, utf8_len, white_space};
use vstd::prelude::*;

verus! {

/// Bytes before position `i`.
pub open spec fn offset_at(src: Seq<char>, i: int) -> int
    decreases i,
{
    if i <= 0 {
        0
    } else {
        offset_at(src, i - 1) + utf8_len(src[i - 1])
    }
}

/// Line of position `i`.
pub open spec fn line_at(src: Seq<char>, i: int) -> int
    decreases i,
{
    if i <= 0 {
        1
    } else if src[i - 1] == '\n' {
        line_at(src, i - 1) + 1
    } else {
        line_at(src, i - 1)
    }
}

/// Column of position `i`.
pub open spec fn col_at(src: Seq<char>, i: int) -> int
    decreases i,
{
    if i <= 0 {
        1
    } else if src[i - 1] == '\n' {
        1
    } else {
        col_at(src, i - 1) + 1
    }
}

/// Positions grow by at most four bytes, one line and one column a character.
pub proof fn lemma_position_bounds(src: Seq<char>, i: int)
    requires
        0 <= i,
    ensures
        i <= offset_at(src, i) <= 4 * i,
        1 <= line_at(src, i) <= i + 1,
        1 <= col_at(src, i) <= i + 1,
    decreases i,
{
    if i > 0 {
        lemma_position_bounds(src, i - 1);
    }
}

/// Bytes before a position grow with the position.
pub proof fn lemma_offset_monotone(src: Seq<char>, i: int, j: int)
    requires
        0 <= i <= j,
    ensures
        offset_at(src, i) + (j - i) <= offset_at(src, j),
    decreases j,
{
    if i < j {
        lemma_offset_monotone(src, i, j - 1);
    }
}

/// Whether `p` stands at position `i`. An empty `p` stands nowhere.
pub open spec fn sees(src: Seq<char>, i: int, p: Seq<char>) -> bool {
    &&& p.len() > 0
    &&& 0 <= i
    &&& i + p.len() <= src.len()
    &&& src.subrange(i, i + p.len()) == p
}

/// End of the line that position `i` is on.
pub open spec fn line_end(src: Seq<char>, i: int) -> int
    decreases src.len() - i,
{
    if 0 <= i < src.len() && src[i] != '\n' {
        line_end(src, i + 1)
    } else {
        i
    }
}

/// Whether the two characters at `i` are `a` and `b`.
pub open spec fn two(src: Seq<char>, i: int, a: char, b: char) -> bool {
    0 <= i && i + 1 < src.len() && src[i] == a && src[i + 1] == b
}

/// End of a block comment whose text, inside `depth` open comments, goes on at
/// `i`. An unfinished comment ends with the input.
pub open spec fn block_end(src: Seq<char>, i: int, depth: int) -> int
    decreases src.len() - i,
{
    if depth <= 0 || i < 0 || i >= src.len() {
        i
    } else if two(src, i, '/', '*') {
        block_end(src, i + 2, depth + 1)
    } else if two(src, i, '*', '/') {
        block_end(src, i + 2, depth - 1)
    } else {
        block_end(src, i + 1, depth)
    }
}

pub proof fn lemma_line_end(src: Seq<char>, i: int)
    ensures
        i <= line_end(src, i),
        i <= src.len() ==> line_end(src, i) <= src.len(),
    decreases src.len() - i,
{
    if 0 <= i < src.len() && src[i] != '\n' {
        lemma_line_end(src, i + 1);
    }
}

pub proof fn lemma_block_end(src: Seq<char>, i: int, depth: int)
    ensures
        i <= block_end(src, i, depth),
        i <= src.len() ==> block_end(src, i, depth) <= src.len(),
    decreases src.len() - i,
{
    if depth <= 0 || i < 0 || i >= src.len() {
    } else if two(src, i, '/', '*') {
        lemma_block_end(src, i + 2, depth + 1);
    } else if two(src, i, '*', '/') {
        lemma_block_end(src, i + 2, depth - 1);
    } else {
        lemma_block_end(src, i + 1, depth);
    }
}

/// First position at or after `i` that neither white space nor a comment covers.
pub open spec fn ws_end(src: Seq<char>, i: int) -> int
    decreases src.len() - i,
{
    if i < 0 || i >= src.len() {
        i
    } else if white_space(src[i]) {
        ws_end(src, i + 1)
    } else if two(src, i, '/', '/') {
        proof {
            lemma_line_end(src, i + 2);
        }
        ws_end(src, line_end(src, i + 2))
    } else if two(src, i, '/', '*') {
        proof {
            lemma_block_end(src, i + 2, 1);
        }
        ws_end(src, block_end(src, i + 2, 1))
    } else {
        i
    }
}

/// Skipping never goes back and never leaves the input.
pub broadcast proof fn lemma_ws_end(src: Seq<char>, i: int)
    ensures
        i <= #[trigger] ws_end(src, i),
        i <= src.len() ==> ws_end(src, i) <= src.len(),
    decreases src.len() - i,
{
    if i < 0 || i >= src.len() {
    } else if white_space(src[i]) {
        lemma_ws_end(src, i + 1);
    } else if two(src, i, '/', '/') {
        lemma_line_end(src, i + 2);
        lemma_ws_end(src, line_end(src, i + 2));
    } else if two(src, i, '/', '*') {
        lemma_block_end(src, i + 2, 1);
        lemma_ws_end(src, block_end(src, i + 2, 1));
    }
}

/// Skipping twice is skipping once.
pub proof fn lemma_ws_end_idempotent(src: Seq<char>, i: int)
    ensures
        ws_end(src, ws_end(src, i)) == ws_end(src, i),
    decreases src.len() - i,
{
    if i < 0 || i >= src.len() {
    } else if white_space(src[i]) {
        lemma_ws_end_idempotent(src, i + 1);
    } else if two(src, i, '/', '/') {
        lemma_line_end(src, i + 2);
        lemma_ws_end_idempotent(src, line_end(src, i + 2));
    } else if two(src, i, '/', '*') {
        lemma_block_end(src, i + 2, 1);
        lemma_ws_end_idempotent(src, block_end(src, i + 2, 1));
    }
}

/// End of the run of identifier characters at `i`.
pub open spec fn run_end(src: Seq<char>, i: int) -> int
    decreases src.len() - i,
{
    if 0 <= i < src.len() && ident_char(src[i]) {
        run_end(src, i + 1)
    } else {
        i
    }
}

pub broadcast proof fn lemma_run_end(src: Seq<char>, i: int)
    ensures
        i <= #[trigger] run_end(src, i),
        i <= src.len() ==> run_end(src, i) <= src.len(),
    decreases src.len() - i,
{
    if 0 <= i < src.len() && ident_char(src[i]) {
        lemma_run_end(src, i + 1);
    }
}

/// End of the run of ASCII letters at `i`.
pub open spec fn alpha_end(src: Seq<char>, i: int) -> int
    decreases src.len() - i,
{
    if 0 <= i < src.len() && ascii_alpha(src[i]) {
        alpha_end(src, i + 1)
    } else {
        i
    }
}

pub broadcast proof fn lemma_alpha_end(src: Seq<char>, i: int)
    ensures
        i <= #[trigger] alpha_end(src, i),
        i <= src.len() ==> alpha_end(src, i) <= src.len(),
    decreases src.len() - i,
{
    if 0 <= i < src.len() && ascii_alpha(src[i]) {
        lemma_alpha_end(src, i + 1);
    }
}

/// End of the run of decimal digits at `i`.
pub open spec fn digits_end(src: Seq<char>, i: int) -> int
    decreases src.len() - i,
{
    if 0 <= i < src.len() && ascii_digit(src[i]) {
        digits_end(src, i + 1)
    } else {
        i
    }
}

pub broadcast proof fn lemma_digits_end(src: Seq<char>, i: int)
    ensures
        i <= #[trigger] digits_end(src, i),
        i <= src.len() ==> digits_end(src, i) <= src.len(),
    decreases src.len() - i,
{
    if 0 <= i < src.len() && ascii_digit(src[i]) {
        lemma_digits_end(src, i + 1);
    }
}

/// The names no identifier may have.
pub open spec fn reserved(w: Seq<char>) -> bool {
    w == "in"@ || w == "let"@ || w == "rule"@ || w == "diff"@
}

/// The word at `i` behind white space: its first and its last position.
pub open spec fn word_at(src: Seq<char>, i: int) -> Option<(int, int)> {
    let b = ws_end(src, i);
    if 0 <= b < src.len() && alphanumeric(src[b]) {
        Some((b, run_end(src, b + 1)))
    } else {
        None
    }
}

/// The identifier at `i` behind white space, and the position behind it and
/// the white space that follows.
pub open spec fn ident_at(src: Seq<char>, i: int) -> Option<(Seq<char>, int)> {
    match word_at(src, i) {
        Some((b, e)) => {
            let w = src.subrange(b, e);
            if reserved(w) {
                None
            } else {
                Some((w, ws_end(src, e)))
            }
        },
        None => None,
    }
}

/// The position behind the symbol `p` at `i`, and the white space on both
/// sides of it. A symbol that ends like an identifier must not go on like one.
pub open spec fn symbol_at(src: Seq<char>, i: int, p: Seq<char>) -> Option<int> {
    let b = ws_end(src, i);
    let e = b + p.len();
    if sees(src, b, p) && !(ident_char(p[p.len() - 1]) && e < src.len() && ident_char(src[e])) {
        Some(ws_end(src, e))
    } else {
        None
    }
}

/// The number written in decimal digits at `from..to`.
pub open spec fn number_value(src: Seq<char>, from: int, to: int) -> int
    decreases to - from,
{
    if to <= from {
        0
    } else {
        10 * number_value(src, from, to - 1) + (src[to - 1] as int - 48)
    }
}

/// The number at `i` behind white space, if it fits in 64 bits, and the
/// position behind it and the white space that follows.
pub open spec fn natural_at(src: Seq<char>, i: int) -> Option<(u64, int)> {
    let b = ws_end(src, i);
    let e = digits_end(src, b);
    if e > b && number_value(src, b, e) <= u64::MAX {
        Some((number_value(src, b, e) as u64, ws_end(src, e)))
    } else {
        None
    }
}

/// Whether `c` is a subscript digit.
pub open spec fn subscript_digit(c: char) -> bool {
    '\u{2080}' <= c <= '\u{2089}'
}

pub open spec fn subscripts_end(src: Seq<char>, i: int) -> int
    decreases src.len() - i,
{
    if 0 <= i < src.len() && subscript_digit(src[i]) {
        subscripts_end(src, i + 1)
    } else {
        i
    }
}

pub broadcast proof fn lemma_subscripts_end(src: Seq<char>, i: int)
    ensures
        i <= #[trigger] subscripts_end(src, i),
        i <= src.len() ==> subscripts_end(src, i) <= src.len(),
    decreases src.len() - i,
{
    if 0 <= i < src.len() && subscript_digit(src[i]) {
        lemma_subscripts_end(src, i + 1);
    }
}

/// The number written in subscript digits at `from..to`.
pub open spec fn subscript_value(src: Seq<char>, from: int, to: int) -> int
    decreases to - from,
{
    if to <= from {
        0
    } else {
        10 * subscript_value(src, from, to - 1) + (src[to - 1] as int - 0x2080)
    }
}

/// The number in subscript digits at `i`, if it fits in 64 bits, and the
/// position behind it and the white space that follows.
pub open spec fn subscript_at(src: Seq<char>, i: int) -> Option<(u64, int)> {
    let e = subscripts_end(src, i);
    if e > i && subscript_value(src, i, e) <= u64::MAX {
        Some((subscript_value(src, i, e) as u64, ws_end(src, e)))
    } else {
        None
    }
}

/// The character a backslash and `c` stand for in a string literal.
pub open spec fn unescaped(c: char) -> Option<char> {
    if c == 'n' {
        Some('\n')
    } else if c == 't' {
        Some('\t')
    } else if c == 'r' {
        Some('\r')
    } else if c == '"' || c == '\\' || c == '\'' {
        Some(c)
    } else {
        None
    }
}

/// The rest of a string literal from `i` on, behind the text `acc`: the whole
/// text, and the position behind the closing quote.
pub open spec fn literal_rest(src: Seq<char>, i: int, acc: Seq<char>) -> Option<(Seq<char>, int)>
    decreases src.len() - i,
{
    if i < 0 || i >= src.len() || src[i] == '\n' {
        None
    } else if src[i] == '"' {
        Some((acc, i + 1))
    } else if src[i] == '\\' {
        if i + 1 >= src.len() {
            None
        } else {
            match unescaped(src[i + 1]) {
                Some(c) => literal_rest(src, i + 2, acc.push(c)),
                None => None,
            }
        }
    } else {
        literal_rest(src, i + 1, acc.push(src[i]))
    }
}

/// The string literal at `i` behind white space, and the position behind it
/// and the white space that follows.
pub open spec fn string_at(src: Seq<char>, i: int) -> Option<(Seq<char>, int)> {
    let b = ws_end(src, i);
    if 0 <= b < src.len() && src[b] == '"' {
        match literal_rest(src, b + 1, Seq::empty()) {
            Some((s, e)) => Some((s, ws_end(src, e))),
            None => None,
        }
    } else {
        None
    }
}

/// First position at or after `i` that holds a single quote or ends the line.
pub open spec fn quote_end(src: Seq<char>, i: int) -> int
    decreases src.len() - i,
{
    if 0 <= i < src.len() && src[i] != '\'' && src[i] != '\n' {
        quote_end(src, i + 1)
    } else {
        i
    }
}

pub broadcast proof fn lemma_quote_end(src: Seq<char>, i: int)
    ensures
        i <= #[trigger] quote_end(src, i),
        i <= src.len() ==> quote_end(src, i) <= src.len(),
    decreases src.len() - i,
{
    if 0 <= i < src.len() && src[i] != '\'' && src[i] != '\n' {
        lemma_quote_end(src, i + 1);
    }
}

/// The text between single quotes at `i` behind white space, and the position
/// behind it and the white space that follows.
pub open spec fn single_quoted_at(src: Seq<char>, i: int) -> Option<(Seq<char>, int)> {
    let b = ws_end(src, i);
    if 0 <= b < src.len() && src[b] == '\'' {
        let e = quote_end(src, b + 1);
        if e > b + 1 && e < src.len() && src[e] == '\'' {
            Some((src.subrange(b + 1, e), ws_end(src, e + 1)))
        } else {
            None
        }
    } else {
        None
    }
}

/// End of the run of identifier characters and dashes at `i`.
pub open spec fn dashed_end(src: Seq<char>, i: int) -> int
    decreases src.len() - i,
{
    if 0 <= i < src.len() && (ident_char(src[i]) || src[i] == '-') {
        dashed_end(src, i + 1)
    } else {
        i
    }
}

pub broadcast proof fn lemma_dashed_end(src: Seq<char>, i: int)
    ensures
        i <= #[trigger] dashed_end(src, i),
        i <= src.len() ==> dashed_end(src, i) <= src.len(),
    decreases src.len() - i,
{
    if 0 <= i < src.len() && (ident_char(src[i]) || src[i] == '-') {
        lemma_dashed_end(src, i + 1);
    }
}

/// The name `x-...` of a foreign attribute at `i` behind white space, and the
/// position behind it and the white space that follows.
pub open spec fn foreign_at(src: Seq<char>, i: int) -> Option<(Seq<char>, int)> {
    let b = ws_end(src, i);
    let e = dashed_end(src, b + 2);
    if two(src, b, 'x', '-') && e > b + 2 {
        Some((src.subrange(b, e), ws_end(src, e)))
    } else {
        None
    }
}

/// The rest of an export body from `i` on, behind the text `acc`: the whole
/// text, and the position behind the closing quote. A backslash stands before
/// a backslash or a quote only.
pub open spec fn export_rest(src: Seq<char>, i: int, acc: Seq<char>) -> Option<(Seq<char>, int)>
    decreases src.len() - i,
{
    if i < 0 || i >= src.len() {
        None
    } else if src[i] == '"' {
        Some((acc, i + 1))
    } else if src[i] == '\\' {
        if i + 1 < src.len() && (src[i + 1] == '\\' || src[i + 1] == '"') {
            export_rest(src, i + 2, acc.push(src[i + 1]))
        } else {
            None
        }
    } else {
        export_rest(src, i + 1, acc.push(src[i]))
    }
}

/// The export body at `i` behind white space, and the position behind it and
/// the white space that follows.
pub open spec fn export_at(src: Seq<char>, i: int) -> Option<(Seq<char>, int)> {
    let b = ws_end(src, i);
    if 0 <= b < src.len() && src[b] == '"' {
        match export_rest(src, b + 1, Seq::empty()) {
            Some((s, e)) => Some((s, ws_end(src, e))),
            None => None,
        }
    } else {
        None
    }
}

/// End of the run of letters at `i`.
pub open spec fn letters_end(src: Seq<char>, i: int) -> int
    decreases src.len() - i,
{
    if 0 <= i < src.len() && crate::text::alphabetic(src[i]) {
        letters_end(src, i + 1)
    } else {
        i
    }
}

pub broadcast proof fn lemma_letters_end(src: Seq<char>, i: int)
    ensures
        i <= #[trigger] letters_end(src, i),
        i <= src.len() ==> letters_end(src, i) <= src.len(),
    decreases src.len() - i,
{
    if 0 <= i < src.len() && crate::text::alphabetic(src[i]) {
        lemma_letters_end(src, i + 1);
    }
}

/// The rest of a formal comment from `i` on, behind the text `acc`: the whole
/// text, and the position behind the closing `*}`. A backslash stands before a
/// backslash or a star only.
pub open spec fn comment_rest(src: Seq<char>, i: int, acc: Seq<char>) -> Option<(Seq<char>, int)>
    decreases src.len() - i,
{
    if i < 0 || i >= src.len() {
        None
    } else if src[i] == '*' {
        if two(src, i, '*', '}') {
            Some((acc, i + 2))
        } else {
            None
        }
    } else if src[i] == '\\' {
        if i + 1 < src.len() && (src[i + 1] == '\\' || src[i + 1] == '*') {
            comment_rest(src, i + 2, acc.push(src[i + 1]))
        } else {
            None
        }
    } else {
        comment_rest(src, i + 1, acc.push(src[i]))
    }
}

/// A formal comment at `i` behind white space: header, body, and the position
/// behind it and the white space that follows.
pub open spec fn formal_comment_at(src: Seq<char>, i: int) -> Option<
    (Seq<char>, Seq<char>, int),
> {
    let b = ws_end(src, i);
    let h = letters_end(src, b);
    if h > b && two(src, h, '{', '*') {
        match comment_rest(src, h + 2, Seq::empty()) {
            Some((body, e)) => Some((src.subrange(b, h), body, ws_end(src, e))),
            None => None,
        }
    } else {
        None
    }
}

pub broadcast group group_lexer {
    lemma_ws_end,
    lemma_run_end,
    lemma_alpha_end,
    lemma_digits_end,
    lemma_subscripts_end,
    lemma_quote_end,
    lemma_dashed_end,
    lemma_letters_end,
}

pub proof fn lemma_literal_rest(src: Seq<char>, i: int, acc: Seq<char>)
    ensures
        literal_rest(src, i, acc) matches Some((_, e)) ==> i < e <= src.len(),
    decreases src.len() - i,
{
    if i < 0 || i >= src.len() || src[i] == '\n' || src[i] == '"' {
    } else if src[i] == '\\' {
        if i + 1 < src.len() && unescaped(src[i + 1]) is Some {
            lemma_literal_rest(src, i + 2, acc.push(unescaped(src[i + 1])->0));
        }
    } else {
        lemma_literal_rest(src, i + 1, acc.push(src[i]));
    }
}

pub proof fn lemma_export_rest(src: Seq<char>, i: int, acc: Seq<char>)
    ensures
        export_rest(src, i, acc) matches Some((_, e)) ==> i < e <= src.len(),
    decreases src.len() - i,
{
    if i < 0 || i >= src.len() || src[i] == '"' {
    } else if src[i] == '\\' {
        if i + 1 < src.len() && (src[i + 1] == '\\' || src[i + 1] == '"') {
            lemma_export_rest(src, i + 2, acc.push(src[i + 1]));
        }
    } else {
        lemma_export_rest(src, i + 1, acc.push(src[i]));
    }
}

pub proof fn lemma_comment_rest(src: Seq<char>, i: int, acc: Seq<char>)
    ensures
        comment_rest(src, i, acc) matches Some((_, e)) ==> i < e <= src.len(),
    decreases src.len() - i,
{
    if i < 0 || i >= src.len() || src[i] == '*' {
    } else if src[i] == '\\' {
        if i + 1 < src.len() && (src[i + 1] == '\\' || src[i + 1] == '*') {
            lemma_comment_rest(src, i + 2, acc.push(src[i + 1]));
        }
    } else {
        lemma_comment_rest(src, i + 1, acc.push(src[i]));
    }
}

pub proof fn lemma_number_bound(src: Seq<char>, from: int, to: int, all: int)
    requires
        0 <= from <= to <= all <= digits_end(src, from),
        digits_end(src, from) <= src.len(),
    ensures
        0 <= number_value(src, from, to) <= number_value(src, from, all),
    decreases all, to,
{
    if to < all {
        lemma_number_bound(src, from, to, all - 1);
        lemma_in_digits(src, from, all - 1);
    } else if from < to {
        lemma_number_bound(src, from, to - 1, to - 1);
        lemma_in_digits(src, from, to - 1);
    }
}

proof fn lemma_in_digits(src: Seq<char>, from: int, k: int)
    requires
        0 <= from <= k < digits_end(src, from),
    ensures
        k < src.len(),
        ascii_digit(src[k]),
    decreases k - from,
{
    if from < k {
        lemma_in_digits(src, from + 1, k);
    }
}

pub proof fn lemma_subscript_bound(src: Seq<char>, from: int, to: int, all: int)
    requires
        0 <= from <= to <= all <= subscripts_end(src, from),
        subscripts_end(src, from) <= src.len(),
    ensures
        0 <= subscript_value(src, from, to) <= subscript_value(src, from, all),
    decreases all, to,
{
    if to < all {
        lemma_subscript_bound(src, from, to, all - 1);
        lemma_in_subscripts(src, from, all - 1);
    } else if from < to {
        lemma_subscript_bound(src, from, to - 1, to - 1);
        lemma_in_subscripts(src, from, to - 1);
    }
}

proof fn lemma_in_subscripts(src: Seq<char>, from: int, k: int)
    requires
        0 <= from <= k < subscripts_end(src, from),
    ensures
        k < src.len(),
        subscript_digit(src[k]),
    decreases k - from,
{
    if from < k {
        lemma_in_subscripts(src, from + 1, k);
    }
}

} // verus!
