//! Reading tokens.

use crate::text::{
    chars_of, is_ascii_alpha, is_digit, is_ident_char, same, string_of, utf8_width,
};
use crate::tokens::{
    alpha_end, block_end, col_at, comment_rest, dashed_end, digits_end, export_at, export_rest,
    foreign_at, formal_comment_at, group_lexer, ident_at, lemma_block_end, lemma_line_end,
    lemma_number_bound, lemma_position_bounds, lemma_subscript_bound, letters_end, line_at,
    line_end, literal_rest, natural_at, number_value, offset_at, quote_end, reserved, run_end, sees,
    single_quoted_at, string_at, subscript_at, subscript_value, subscripts_end, symbol_at, two,
    word_at, ws_end,
};
use vstd::prelude::*;

verus! {

broadcast use group_lexer;

/// The longest input, in characters, whose positions fit in the integers they are kept in.
pub const MAX_CHARS: usize = 0x3fff_ffff;

/// A position: characters and bytes before it, line and column from 1.
#[derive(Debug, Clone, Copy, PartialEq, Eq, Structural)]
pub struct Pos {
    pub at: usize,
    pub offset: usize,
    pub line: u32,
    pub col: u32,
}

/// Whether `w` is a name no identifier may have.
pub fn is_reserved_name(w: &str) -> (r: bool)
    ensures
        r == reserved(w@),
{
    same(w, "in") || same(w, "let") || same(w, "rule") || same(w, "diff")
}

/// An input and a position in it.
pub struct Lexer {
    pub src: Vec<char>,
    pub pos: Pos,
}

/// Whether `p` is the position of character `p.at` of `src`.
pub open spec fn position_of(src: Seq<char>, p: Pos) -> bool {
    &&& p.at <= src.len()
    &&& p.offset == offset_at(src, p.at as int)
    &&& p.line == line_at(src, p.at as int)
    &&& p.col == col_at(src, p.at as int)
}

impl Lexer {
    /// The input is not too long, and the position is one of it.
    pub open spec fn wf(&self) -> bool {
        &&& self.src@.len() <= MAX_CHARS
        &&& position_of(self.src@, self.pos)
    }

    /// The characters before the position.
    pub open spec fn index(&self) -> int {
        self.pos.at as int
    }

    /// Whether `self` reads the same input as `o`, from position `at` on.
    pub open spec fn moved(&self, o: Lexer, at: int) -> bool {
        &&& self.wf()
        &&& self.src == o.src
        &&& self.index() == at
    }

    /// The start of `src`.
    pub fn new(src: &str) -> (l: Lexer)
        requires
            src@.len() <= MAX_CHARS,
        ensures
            l.wf(),
            l.src@ == src@,
            l.index() == 0,
    {
        Lexer::from_chars(chars_of(src))
    }

    pub fn from_chars(src: Vec<char>) -> (l: Lexer)
        requires
            src@.len() <= MAX_CHARS,
        ensures
            l.wf(),
            l.src@ == src@,
            l.index() == 0,
    {
        Lexer { src, pos: Pos { at: 0, offset: 0, line: 1, col: 1 } }
    }

    /// The character `k` places on.
    pub fn peek_at(&self, k: usize) -> (c: Option<char>)
        requires
            self.wf(),
            k <= MAX_CHARS,
        ensures
            c == (if self.index() + k < self.src@.len() {
                Some(self.src@[self.index() + k])
            } else {
                None
            }),
    {
        if self.pos.at + k < self.src.len() {
            Some(self.src[self.pos.at + k])
        } else {
            None
        }
    }

    /// The next character.
    pub fn peek(&self) -> (c: Option<char>)
        requires
            self.wf(),
        ensures
            c == (if self.index() < self.src@.len() {
                Some(self.src@[self.index()])
            } else {
                None
            }),
    {
        self.peek_at(0)
    }

    /// Steps over the next character, if there is one.
    pub fn bump(&mut self)
        requires
            old(self).wf(),
        ensures
            final(self).moved(
                *old(self),
                if old(self).index() < old(self).src@.len() {
                    old(self).index() + 1
                } else {
                    old(self).index()
                },
            ),
    {
        if self.pos.at < self.src.len() {
            let c = self.src[self.pos.at];
            proof {
                lemma_position_bounds(self.src@, self.pos.at as int);
            }
            self.pos = Pos {
                at: self.pos.at + 1,
                offset: self.pos.offset + utf8_width(c),
                line: if c == '\n' {
                    self.pos.line + 1
                } else {
                    self.pos.line
                },
                col: if c == '\n' {
                    1
                } else {
                    self.pos.col + 1
                },
            };
        }
    }

    /// Steps over `n` characters.
    pub fn advance(&mut self, n: usize)
        requires
            old(self).wf(),
            old(self).index() + n <= old(self).src@.len(),
        ensures
            final(self).moved(*old(self), old(self).index() + n),
    {
        let mut k: usize = 0;
        while k < n
            invariant
                k <= n,
                old(self).index() + n <= old(self).src@.len(),
                self.moved(*old(self), old(self).index() + k),
            decreases n - k,
        {
            self.bump();
            k = k + 1;
        }
    }

    pub fn is_eof(&self) -> (r: bool)
        requires
            self.wf(),
        ensures
            r == (self.index() == self.src@.len()),
    {
        self.pos.at == self.src.len()
    }

    /// Whether `p` comes next.
    pub fn sees(&self, p: &str) -> (r: bool)
        requires
            self.wf(),
        ensures
            r == sees(self.src@, self.index(), p@),
    {
        let v = chars_of(p);
        if v.len() == 0 || v.len() > self.src.len() - self.pos.at {
            return false;
        }
        let mut k: usize = 0;
        while k < v.len()
            invariant
                self.wf(),
                v@ == p@,
                k <= v@.len(),
                0 < v@.len() <= self.src@.len() - self.index(),
                forall|j: int| 0 <= j < k ==> self.src@[self.index() + j] == v@[j],
            decreases v@.len() - k,
        {
            if self.src[self.pos.at + k] != v[k] {
                assert(self.src@.subrange(self.index(), self.index() + v@.len())[k as int]
                    != p@[k as int]);
                return false;
            }
            k = k + 1;
        }
        assert(self.src@.subrange(self.index(), self.index() + v@.len()) =~= p@);
        true
    }

    /// Steps over `p` if it comes next.
    pub fn eat_str(&mut self, p: &str) -> (r: bool)
        requires
            old(self).wf(),
        ensures
            r == sees(old(self).src@, old(self).index(), p@),
            final(self).moved(
                *old(self),
                if r {
                    old(self).index() + p@.len()
                } else {
                    old(self).index()
                },
            ),
    {
        if self.sees(p) {
            let n: usize = chars_of(p).len();
            self.advance(n);
            true
        } else {
            false
        }
    }

    fn skip_line(&mut self)
        requires
            old(self).wf(),
        ensures
            final(self).moved(*old(self), line_end(old(self).src@, old(self).index())),
    {
        loop
            invariant
                self.moved(*old(self), self.index()),
                line_end(self.src@, self.index()) == line_end(old(self).src@, old(self).index()),
            decreases self.src@.len() - self.index(),
        {
            match self.peek() {
                Some(c) => {
                    if c == '\n' {
                        return;
                    }
                    self.bump();
                },
                None => {
                    return;
                },
            }
        }
    }

    fn skip_block(&mut self)
        requires
            old(self).wf(),
        ensures
            final(self).moved(*old(self), block_end(old(self).src@, old(self).index(), 1)),
    {
        let mut depth: usize = 1;
        loop
            invariant
                self.moved(*old(self), self.index()),
                depth <= self.index() + 1,
                block_end(self.src@, self.index(), depth as int) == block_end(
                    old(self).src@,
                    old(self).index(),
                    1,
                ),
            decreases self.src@.len() - self.index(),
        {
            if depth == 0 || self.is_eof() {
                return;
            }
            let c = self.peek();
            let d = self.peek_at(1);
            if c == Some('/') && d == Some('*') {
                self.advance(2);
                depth = depth + 1;
            } else if c == Some('*') && d == Some('/') {
                self.advance(2);
                depth = depth - 1;
            } else {
                self.bump();
            }
        }
    }

    /// Skips white space and comments.
    pub fn skip_ws(&mut self)
        requires
            old(self).wf(),
        ensures
            final(self).moved(*old(self), ws_end(old(self).src@, old(self).index())),
    {
        loop
            invariant
                self.moved(*old(self), self.index()),
                old(self).index() <= self.index(),
                ws_end(self.src@, self.index()) == ws_end(old(self).src@, old(self).index()),
            decreases self.src@.len() - self.index(),
        {
            match self.peek() {
                Some(c) => {
                    if c.is_whitespace() {
                        self.bump();
                    } else if c == '/' && self.peek_at(1) == Some('/') {
                        self.advance(2);
                        proof {
                            lemma_line_end(self.src@, self.index());
                        }
                        self.skip_line();
                    } else if c == '/' && self.peek_at(1) == Some('*') {
                        self.advance(2);
                        proof {
                            lemma_block_end(self.src@, self.index(), 1);
                        }
                        self.skip_block();
                    } else {
                        return;
                    }
                },
                None => {
                    return;
                },
            }
        }
    }

    /// Goes to a position of this input.
    pub fn set_pos(&mut self, p: Pos)
        requires
            old(self).wf(),
            position_of(old(self).src@, p),
        ensures
            final(self).moved(*old(self), p.at as int),
            final(self).pos == p,
    {
        self.pos = p;
    }

    /// Steps over the symbol `p` if it comes next.
    pub fn try_symbol(&mut self, p: &str) -> (r: bool)
        requires
            old(self).wf(),
        ensures
            r == (symbol_at(old(self).src@, old(self).index(), p@) is Some),
            final(self).moved(
                *old(self),
                match symbol_at(old(self).src@, old(self).index(), p@) {
                    Some(e) => e,
                    None => old(self).index(),
                },
            ),
    {
        let start = self.pos;
        self.skip_ws();
        if self.sees(p) {
            let v = chars_of(p);
            let n: usize = v.len();
            self.advance(n);
            if is_ident_char(v[n - 1]) {
                match self.peek() {
                    Some(c) => {
                        if is_ident_char(c) {
                            self.set_pos(start);
                            return false;
                        }
                    },
                    None => {},
                }
            }
            self.skip_ws();
            true
        } else {
            self.set_pos(start);
            false
        }
    }

    /// Steps to the end of the run of identifier characters.
    fn skip_run(&mut self)
        requires
            old(self).wf(),
        ensures
            final(self).moved(*old(self), run_end(old(self).src@, old(self).index())),
    {
        loop
            invariant
                self.moved(*old(self), self.index()),
                old(self).index() <= self.index(),
                run_end(self.src@, self.index()) == run_end(old(self).src@, old(self).index()),
            decreases self.src@.len() - self.index(),
        {
            match self.peek() {
                Some(c) => {
                    if !is_ident_char(c) {
                        return;
                    }
                    self.bump();
                },
                None => {
                    return;
                },
            }
        }
    }

    /// The word that comes next, without moving.
    pub fn word(&mut self) -> (r: Option<(Pos, Pos)>)
        requires
            old(self).wf(),
        ensures
            *final(self) == *old(self),
            r matches Some((b, e)) ==> position_of(old(self).src@, b) && position_of(
                old(self).src@,
                e,
            ) && word_at(old(self).src@, old(self).index()) == Some((b.at as int, e.at as int))
                && b.at <= e.at,
            r is None ==> word_at(old(self).src@, old(self).index()) is None,
    {
        let start = self.pos;
        self.skip_ws();
        let b = self.pos;
        match self.peek() {
            Some(c) => {
                if crate::text::is_word_char(c) {
                    self.bump();
                    self.skip_run();
                    let e = self.pos;
                    self.set_pos(start);
                    return Some((b, e));
                }
            },
            None => {},
        }
        self.set_pos(start);
        None
    }

    /// The identifier that comes next.
    pub fn identifier(&mut self) -> (r: Option<String>)
        requires
            old(self).wf(),
        ensures
            match ident_at(old(self).src@, old(self).index()) {
                Some((w, e)) => r.deep_view() == Some(w) && final(self).moved(*old(self), e),
                None => r is None && *final(self) == *old(self),
            },
    {
        match self.word() {
            Some((b, e)) => {
                let w = string_of(&self.src, b.at, e.at);
                if is_reserved_name(&w) {
                    return None;
                }
                self.set_pos(e);
                self.skip_ws();
                Some(w)
            },
            None => None,
        }
    }

    /// The run of ASCII letters that comes next, with no white space before it.
    pub fn ascii_alpha_run(&mut self) -> (r: String)
        requires
            old(self).wf(),
        ensures
            r@ == old(self).src@.subrange(
                old(self).index(),
                alpha_end(old(self).src@, old(self).index()),
            ),
            final(self).moved(*old(self), alpha_end(old(self).src@, old(self).index())),
    {
        let start = self.pos.at;
        loop
            invariant
                self.moved(*old(self), self.index()),
                start == old(self).index(),
                start <= self.index(),
                alpha_end(self.src@, self.index()) == alpha_end(old(self).src@, old(self).index()),
            decreases self.src@.len() - self.index(),
        {
            match self.peek() {
                Some(c) => {
                    if !is_ascii_alpha(c) {
                        return string_of(&self.src, start, self.pos.at);
                    }
                    self.bump();
                },
                None => {
                    return string_of(&self.src, start, self.pos.at);
                },
            }
        }
    }

    /// The number that comes next.
    pub fn natural(&mut self) -> (r: Option<u64>)
        requires
            old(self).wf(),
        ensures
            match natural_at(old(self).src@, old(self).index()) {
                Some((n, e)) => r == Some(n) && final(self).moved(*old(self), e),
                None => r is None && *final(self) == *old(self),
            },
    {
        let start = self.pos;
        self.skip_ws();
        let from = self.pos.at;
        let ghost b = self.index();
        let ghost e = digits_end(self.src@, b);
        let mut n: u64 = 0;
        loop
            invariant
                self.moved(*old(self), self.index()),
                position_of(self.src@, start),
                start.at == old(self).index(),
                start == old(self).pos,
                b == ws_end(old(self).src@, old(self).index()),
                from == b,
                e == digits_end(self.src@, b),
                b <= self.index() <= e <= self.src@.len(),
                digits_end(self.src@, self.index()) == e,
                n == number_value(self.src@, b, self.index()),
            decreases self.src@.len() - self.index(),
        {
            let c = match self.peek() {
                Some(c) => c,
                None => '\n',
            };
            if !is_digit(c) {
                if self.pos.at == from {
                    self.set_pos(start);
                    return None;
                }
                self.skip_ws();
                return Some(n);
            }
            let d: u64 = (c as u64) - 48;
            proof {
                assert(digits_end(self.src@, self.index() + 1) == e);
                lemma_number_bound(self.src@, b, self.index() + 1, e);
            }
            if n > (u64::MAX - d) / 10 {
                assert(number_value(self.src@, b, self.index() + 1) > u64::MAX);
                self.set_pos(start);
                return None;
            }
            n = n * 10 + d;
            self.bump();
        }
    }

    /// The number in subscript digits that comes next, with no white space before it.
    pub fn natural_subscript(&mut self) -> (r: Option<u64>)
        requires
            old(self).wf(),
        ensures
            match subscript_at(old(self).src@, old(self).index()) {
                Some((n, e)) => r == Some(n) && final(self).moved(*old(self), e),
                None => r is None && *final(self) == *old(self),
            },
    {
        let start = self.pos;
        let ghost b = self.index();
        let ghost e = subscripts_end(self.src@, b);
        let mut n: u64 = 0;
        loop
            invariant
                self.moved(*old(self), self.index()),
                position_of(self.src@, start),
                start.at == b,
                start == old(self).pos,
                b == old(self).index(),
                e == subscripts_end(self.src@, b),
                b <= self.index() <= e <= self.src@.len(),
                subscripts_end(self.src@, self.index()) == e,
                n == subscript_value(self.src@, b, self.index()),
            decreases self.src@.len() - self.index(),
        {
            let c = match self.peek() {
                Some(c) => c,
                None => '\n',
            };
            if !('\u{2080}' <= c && c <= '\u{2089}') {
                if self.pos.at == start.at {
                    self.set_pos(start);
                    return None;
                }
                self.skip_ws();
                return Some(n);
            }
            let d: u64 = (c as u64) - 0x2080;
            proof {
                assert(subscripts_end(self.src@, self.index() + 1) == e);
                lemma_subscript_bound(self.src@, b, self.index() + 1, e);
            }
            if n > (u64::MAX - d) / 10 {
                assert(subscript_value(self.src@, b, self.index() + 1) > u64::MAX);
                self.set_pos(start);
                return None;
            }
            n = n * 10 + d;
            self.bump();
        }
    }

    /// The string literal that comes next.
    pub fn string_literal(&mut self) -> (r: Option<String>)
        requires
            old(self).wf(),
        ensures
            match string_at(old(self).src@, old(self).index()) {
                Some((w, e)) => r.deep_view() == Some(w) && final(self).moved(*old(self), e),
                None => r is None && *final(self) == *old(self),
            },
    {
        let start = self.pos;
        self.skip_ws();
        if self.peek() != Some('"') {
            self.set_pos(start);
            return None;
        }
        self.bump();
        let mut acc = String::new();
        let ghost target = literal_rest(self.src@, self.index(), acc@);
        assert(acc@ =~= Seq::empty());
        loop
            invariant
                self.moved(*old(self), self.index()),
                position_of(self.src@, start),
                start == old(self).pos,
                literal_rest(self.src@, self.index(), acc@) == target,
                string_at(old(self).src@, old(self).index()) == (match target {
                    Some((s, e)) => Some((s, ws_end(self.src@, e))),
                    None => None,
                }),
            decreases self.src@.len() - self.index(),
        {
            match self.peek() {
                Some(c) => {
                    if c == '\n' {
                        self.set_pos(start);
                        return None;
                    } else if c == '"' {
                        self.bump();
                        self.skip_ws();
                        return Some(acc);
                    } else if c == '\\' {
                        let d = match self.peek_at(1) {
                            Some('n') => '\n',
                            Some('t') => '\t',
                            Some('r') => '\r',
                            Some('"') => '"',
                            Some('\\') => '\\',
                            Some('\'') => '\'',
                            _ => {
                                self.set_pos(start);
                                return None;
                            },
                        };
                        acc.push(d);
                        self.advance(2);
                    } else {
                        acc.push(c);
                        self.bump();
                    }
                },
                None => {
                    self.set_pos(start);
                    return None;
                },
            }
        }
    }

    /// The text between single quotes that comes next.
    pub fn single_quoted(&mut self) -> (r: Option<String>)
        requires
            old(self).wf(),
        ensures
            match single_quoted_at(old(self).src@, old(self).index()) {
                Some((w, e)) => r.deep_view() == Some(w) && final(self).moved(*old(self), e),
                None => r is None && *final(self) == *old(self),
            },
    {
        let start = self.pos;
        self.skip_ws();
        if self.peek() != Some('\'') {
            self.set_pos(start);
            return None;
        }
        self.bump();
        let from = self.pos.at;
        let ghost b = self.index();
        loop
            invariant
                self.moved(*old(self), self.index()),
                position_of(self.src@, start),
                start == old(self).pos,
                from == b,
                b == ws_end(old(self).src@, old(self).index()) + 1,
                0 <= b - 1 < self.src@.len(),
                self.src@[b - 1] == '\'',
                b <= self.index(),
                quote_end(self.src@, self.index()) == quote_end(self.src@, b),
            decreases self.src@.len() - self.index(),
        {
            match self.peek() {
                Some(c) => {
                    if c == '\'' {
                        let to = self.pos.at;
                        if to == from {
                            self.set_pos(start);
                            return None;
                        }
                        let s = string_of(&self.src, from, to);
                        self.bump();
                        self.skip_ws();
                        return Some(s);
                    } else if c == '\n' {
                        self.set_pos(start);
                        return None;
                    }
                    self.bump();
                },
                None => {
                    self.set_pos(start);
                    return None;
                },
            }
        }
    }

    /// The name of a foreign attribute that comes next.
    pub fn ext_identifier(&mut self) -> (r: Option<String>)
        requires
            old(self).wf(),
        ensures
            match foreign_at(old(self).src@, old(self).index()) {
                Some((w, e)) => r.deep_view() == Some(w) && final(self).moved(*old(self), e),
                None => r is None && *final(self) == *old(self),
            },
    {
        let start = self.pos;
        self.skip_ws();
        let from = self.pos.at;
        if self.peek() != Some('x') || self.peek_at(1) != Some('-') {
            self.set_pos(start);
            return None;
        }
        self.advance(2);
        let ghost b = self.index();
        loop
            invariant
                self.moved(*old(self), self.index()),
                position_of(self.src@, start),
                start == old(self).pos,
                from == b - 2,
                b - 2 == ws_end(old(self).src@, old(self).index()),
                two(self.src@, b - 2, 'x', '-'),
                b <= self.index(),
                dashed_end(self.src@, self.index()) == dashed_end(self.src@, b),
            decreases self.src@.len() - self.index(),
        {
            let c = match self.peek() {
                Some(c) => c,
                None => '\n',
            };
            let more = self.pos.at < self.src.len() && (is_ident_char(c) || c == '-');
            if !more {
                if self.pos.at == from + 2 {
                    self.set_pos(start);
                    return None;
                }
                let s = string_of(&self.src, from, self.pos.at);
                self.skip_ws();
                return Some(s);
            }
            self.bump();
        }
    }

    /// The export body that comes next.
    pub fn export_body(&mut self) -> (r: Option<String>)
        requires
            old(self).wf(),
        ensures
            match export_at(old(self).src@, old(self).index()) {
                Some((w, e)) => r.deep_view() == Some(w) && final(self).moved(*old(self), e),
                None => r is None && *final(self) == *old(self),
            },
    {
        let start = self.pos;
        self.skip_ws();
        if self.peek() != Some('"') {
            self.set_pos(start);
            return None;
        }
        self.bump();
        let mut acc = String::new();
        let ghost target = export_rest(self.src@, self.index(), acc@);
        assert(acc@ =~= Seq::empty());
        loop
            invariant
                self.moved(*old(self), self.index()),
                position_of(self.src@, start),
                start == old(self).pos,
                export_rest(self.src@, self.index(), acc@) == target,
                export_at(old(self).src@, old(self).index()) == (match target {
                    Some((s, e)) => Some((s, ws_end(self.src@, e))),
                    None => None,
                }),
            decreases self.src@.len() - self.index(),
        {
            match self.peek() {
                Some(c) => {
                    if c == '"' {
                        self.bump();
                        self.skip_ws();
                        return Some(acc);
                    } else if c == '\\' {
                        let d = match self.peek_at(1) {
                            Some('"') => '"',
                            Some('\\') => '\\',
                            _ => {
                                self.set_pos(start);
                                return None;
                            },
                        };
                        acc.push(d);
                        self.advance(2);
                    } else {
                        acc.push(c);
                        self.bump();
                    }
                },
                None => {
                    self.set_pos(start);
                    return None;
                },
            }
        }
    }

    /// Steps to the end of the run of letters.
    pub fn skip_letters(&mut self)
        requires
            old(self).wf(),
        ensures
            final(self).moved(*old(self), letters_end(old(self).src@, old(self).index())),
    {
        loop
            invariant
                self.moved(*old(self), self.index()),
                old(self).index() <= self.index(),
                letters_end(self.src@, self.index()) == letters_end(
                    old(self).src@,
                    old(self).index(),
                ),
            decreases self.src@.len() - self.index(),
        {
            match self.peek() {
                Some(c) => {
                    if !crate::text::is_letter(c) {
                        return;
                    }
                    self.bump();
                },
                None => {
                    return;
                },
            }
        }
    }

    /// The formal comment that comes next: header and body.
    pub fn formal_comment(&mut self) -> (r: Option<(String, String)>)
        requires
            old(self).wf(),
        ensures
            match formal_comment_at(old(self).src@, old(self).index()) {
                Some((h, b, e)) => r.deep_view() == Some((h, b)) && final(self).moved(
                    *old(self),
                    e,
                ),
                None => r is None && *final(self) == *old(self),
            },
    {
        let start = self.pos;
        self.skip_ws();
        let from = self.pos.at;
        self.skip_letters();
        let to = self.pos.at;
        if to == from || self.peek() != Some('{') || self.peek_at(1) != Some('*') {
            self.set_pos(start);
            return None;
        }
        let header = string_of(&self.src, from, to);
        self.advance(2);
        let mut acc = String::new();
        let ghost target = comment_rest(self.src@, self.index(), acc@);
        assert(acc@ =~= Seq::empty());
        loop
            invariant
                self.moved(*old(self), self.index()),
                position_of(self.src@, start),
                start == old(self).pos,
                comment_rest(self.src@, self.index(), acc@) == target,
                formal_comment_at(old(self).src@, old(self).index()) == (match target {
                    Some((s, e)) => Some((header@, s, ws_end(self.src@, e))),
                    None => None,
                }),
            decreases self.src@.len() - self.index(),
        {
            match self.peek() {
                Some(c) => {
                    if c == '*' {
                        if self.peek_at(1) != Some('}') {
                            self.set_pos(start);
                            return None;
                        }
                        self.advance(2);
                        self.skip_ws();
                        return Some((header, acc));
                    } else if c == '\\' {
                        let d = match self.peek_at(1) {
                            Some('*') => '*',
                            Some('\\') => '\\',
                            _ => {
                                self.set_pos(start);
                                return None;
                            },
                        };
                        acc.push(d);
                        self.advance(2);
                    } else {
                        acc.push(c);
                        self.bump();
                    }
                },
                None => {
                    self.set_pos(start);
                    return None;
                },
            }
        }
    }
}

} // verus!
