//! Steps that every part of the grammar is built from, and the errors they raise.

use crate::error::{
    outcome, show_char_token, ErrorM, GhcError, Message, MessageM, ParseError,
};
use crate::lexer::{is_reserved_name, position_of, Lexer, Pos, MAX_CHARS};
use crate::model::{no_items, one_item, put, put_all};
use crate::signature::{pair_fun_syms, pair_syms, FunSym};
use crate::state::{
    expected, group_steps, Carry, FilePlace, Hangs, InputAlias, ItemHang, ItemTail, Mode, Parser,
    ParserState, PlaceM, PredKey, PredKeyM, SeenM, SeenState, SigM, SigState, SourceFile, StateM,
    Step, PS,
};
use crate::text::{alphabetic, chars_of, ident_char, is_ident_char, quote, quoted, string_of};
use crate::tokens::{letters_end, offset_at, ws_end};
use vstd::prelude::*;

verus! {

broadcast use {group_steps, crate::tokens::group_lexer};

/// What hangs over at the start.
pub open spec fn no_hangs() -> Hangs {
    Hangs {
        var_dot: false,
        dot_index: false,
        sort_suffix: false,
        last_ident_end: None,
        var_ident_end: None,
        carry: None,
        annot: None,
        item: None,
    }
}

/// The mode in which theories are read.
pub open spec fn theory_mode() -> Mode {
    Mode { resolve: true, sapic: false, pat: false }
}

/// The state at the start of `src`.
pub open spec fn initial(src: Seq<char>, flags: Seq<Seq<char>>, is_diff: bool) -> PS {
    PS {
        src,
        at: 0,
        sig: SigM {
            fun_syms: pair_syms(),
            ac_fun_syms: Seq::empty(),
            macro_syms: Seq::empty(),
            reserved_builtin_names: Seq::empty(),
            enable_dh: false,
            enable_bp: false,
            enable_xor: false,
            enable_mset: false,
            enable_nat: false,
            enable_diff: is_diff || flags.contains("diff"@),
        },
        st: StateM {
            flags,
            input_aliases: Seq::empty(),
            emit_warnings: true,
            axiom_warning: false,
            include_stack: Seq::empty(),
            files: Seq::empty(),
            wanted: None,
            seen: SeenM {
                rules: Seq::empty(),
                restriction_names: Seq::empty(),
                lemma_names: Seq::empty(),
                diff_left_lemma_names: Seq::empty(),
                diff_right_lemma_names: Seq::empty(),
                diff_lemma_names: Seq::empty(),
                predicates: seq![PredKeyM { persistent: false, name: "Smaller"@, arity: 2 }],
            },
        },
        place: PlaceM { is_diff, base_dir: None, source_file: None, staged_file: None },
        mode: theory_mode(),
        h: no_hangs(),
    }
}

/// The two labels.
pub fn labels2(a: &str, b: &str) -> (v: Vec<String>)
    ensures
        v.deep_view() == seq![a@, b@],
{
    let mut v = one_item(a.to_string());
    put(&mut v, b.to_string());
    assert(v.deep_view() =~= seq![a@, b@]);
    v
}

/// The three labels.
pub fn labels3(a: &str, b: &str, c: &str) -> (v: Vec<String>)
    ensures
        v.deep_view() == seq![a@, b@, c@],
{
    let mut v = labels2(a, b);
    put(&mut v, c.to_string());
    assert(v.deep_view() =~= seq![a@, b@, c@]);
    v
}

/// The label alone.
pub fn labels1(a: &str) -> (v: Vec<String>)
    ensures
        v.deep_view() == seq![a@],
{
    one_item(a.to_string())
}

/// The labels as messages.
pub fn expect_messages(labels: Vec<String>) -> (v: Vec<Message>)
    ensures
        v.deep_view() == expected(labels.deep_view()),
{
    let mut v = no_items::<Message>();
    let mut i: usize = 0;
    while i < labels.len()
        invariant
            i <= labels@.len(),
            v.deep_view() == expected(labels.deep_view()).take(i as int),
        decreases labels@.len() - i,
    {
        put(&mut v, Message::Expect(labels[i].clone()));
        i = i + 1;
        assert(v.deep_view() =~= expected(labels.deep_view()).take(i as int));
    }
    assert(v.deep_view() =~= expected(labels.deep_view()));
    v
}

/// The names between quotes, the last one first.
pub open spec fn quoted_backwards(names: Seq<Seq<char>>) -> Seq<Seq<char>> {
    Seq::new(names.len(), |i: int| quoted(names[names.len() - 1 - i]))
}

/// The infix operators that the signature opens.
#[verifier::opaque]
pub open spec fn operator_labels(sig: SigM) -> Seq<Seq<char>> {
    (if sig.enable_dh {
        seq!["\"^\""@, "\"*\""@]
    } else {
        Seq::empty()
    }) + (if sig.enable_xor {
        seq!["\"XOR\""@, "\"⊕\""@]
    } else {
        Seq::empty()
    }) + (if sig.enable_nat {
        seq!["\"%+\""@]
    } else {
        Seq::empty()
    }) + (if sig.enable_mset {
        seq!["\"++\""@, "\"+\""@]
    } else {
        Seq::empty()
    })
}

/// What the term that stopped at `offset` could have gone on with.
#[verifier::opaque]
pub open spec fn carry_labels(s: PS, offset: int) -> Seq<Seq<char>> {
    match s.h.carry {
        Some(c) => if c.offset == offset {
            (if c.letter {
                seq!["letter or digit"@]
            } else {
                Seq::empty()
            }) + (if c.dot {
                seq!["\".\""@]
            } else {
                Seq::empty()
            }) + quoted_backwards(s.sig.ac_fun_syms) + (if c.eqn {
                Seq::empty()
            } else {
                operator_labels(s.sig)
            })
        } else {
            Seq::empty()
        },
        None => Seq::empty(),
    }
}

/// The error for a missing token behind a term or a fact.
pub open spec fn fail_after_term<T>(s: PS, labels: Seq<Seq<char>>) -> Step<T> {
    let w = s.ws();
    let off = offset_at(w.src, w.at);
    let annot = if w.h.annot == Some(w.offset()) {
        seq!["\"[\""@]
    } else {
        Seq::empty()
    };
    (Err(w.err_labels(carry_labels(w, off) + annot + labels)), w)
}

/// The labels of the items of a theory.
#[verifier::opaque]
pub open spec fn item_labels() -> Seq<Seq<char>> {
    seq![
        "\"heuristic\""@,
        "\"tactic\""@,
        "\"builtins\""@,
        "\"options\""@,
        "\"functions\""@,
        "\"function\""@,
        "\"equations\""@,
        "\"macros\""@,
        "\"restriction\""@,
        "\"axiom\""@,
        "\"test\""@,
        "\"lemma\""@,
        "\"rule\""@,
        "letter"@,
        "top-level process"@,
        "\"let\""@,
        "\"equivLemma\""@,
        "\"diffEquivLemma\""@,
        "predicate block"@,
        "export block"@,
        "\"#ifdef\""@,
        "\"#define\""@,
        "\"#include\""@,
        "\"end\""@,
    ]
}

/// The labels that the last item left at `offset`.
#[verifier::opaque]
pub open spec fn hang_labels(s: PS, offset: int) -> Seq<Seq<char>> {
    match s.h.item {
        Some(i) => if i.offset == offset {
            i.tail.labels()
        } else {
            Seq::empty()
        },
        None => Seq::empty(),
    }
}

/// The error where no item starts: behind the letters that stand there, if
/// any do, or at the position itself.
pub open spec fn fail_item<T>(s: PS) -> Step<T> {
    let w = s.ws();
    let e = letters_end(w.src, w.at);
    if e > w.at {
        let l = w.to(e);
        (
            Err(l.err_labels(seq!["letter"@, "\"{*\""@])),
            l,
        )
    } else {
        let off = offset_at(w.src, w.at);
        (
            Err(w.err_labels(carry_labels(w, off) + hang_labels(w, off) + item_labels())),
            w,
        )
    }
}

/// A plain message at the end of an item.
pub open spec fn fail_behind_item<T>(s: PS, msg: Seq<char>) -> Step<T> {
    let w = s.ws();
    (
        Err(
            w.error(
                seq![MessageM::SysUnExpect(w.token())] + expected(
                    hang_labels(w, offset_at(w.src, w.at)),
                ) + seq![MessageM::Message(msg)],
            ),
        ),
        w,
    )
}

/// Bytes before the end of a word of `n` characters that starts behind the
/// white space at `from`.
#[verifier::opaque]
pub open spec fn word_offset(src: Seq<char>, from: int, n: int) -> usize {
    let e = ws_end(src, from) + n;
    offset_at(
        src,
        if e <= src.len() {
            e
        } else {
            src.len() as int
        },
    ) as usize
}

/// The state after a term has ended.
pub open spec fn carried(s: PS, eqn: bool) -> PS {
    let w = s.ws();
    PS {
        h: Hangs {
            carry: Some(
                Carry {
                    offset: w.offset(),
                    letter: w.h.var_dot && w.h.var_ident_end == Some(w.offset()),
                    dot: w.h.var_dot,
                    eqn,
                },
            ),
            ..w.h
        },
        ..w
    }
}

/// The state after an item has ended.
pub open spec fn item_ended(s: PS, tail: ItemTail) -> PS {
    let w = s.ws();
    PS { h: Hangs { item: Some(ItemHang { offset: w.offset(), tail }), ..w.h }, ..w }
}

/// Whether a dash with a letter behind it comes next.
pub open spec fn at_join(s: PS) -> bool {
    s.peek() == Some('-') && s.peek_at(1) is Some && alphabetic(s.peek_at(1)->0)
}

/// The rest of an identifier with dashes in it, behind `acc`.
pub open spec fn dashed_rest(s: PS, acc: Seq<char>) -> Step<Seq<char>>
    decreases s.rem(),
{
    if at_join(s) {
        match s.bump().ident() {
            (Ok(w), s1) => dashed_rest(s1, acc.push('-') + w),
            (Err(e), s1) => (Err(e), s1),
        }
    } else {
        (Ok(acc), s)
    }
}

/// An identifier that may have dashes in it.
pub open spec fn dashed_ident(s: PS) -> Step<Seq<char>> {
    match s.ident() {
        (Ok(w), s1) => dashed_rest(s1, w),
        (Err(e), s1) => (Err(e), s1),
    }
}

/// End of the word with dashes in it that goes on at `i`.
pub open spec fn dashed_word_end(src: Seq<char>, i: int) -> int
    decreases src.len() - i,
{
    if i < 0 || i >= src.len() {
        i
    } else if ident_char(src[i]) {
        dashed_word_end(src, i + 1)
    } else if src[i] == '-' && i + 1 < src.len() && alphabetic(src[i + 1]) {
        dashed_word_end(src, i + 1)
    } else {
        i
    }
}

pub proof fn lemma_dashed_word_end(src: Seq<char>, i: int)
    ensures
        i <= dashed_word_end(src, i),
        i <= src.len() ==> dashed_word_end(src, i) <= src.len(),
    decreases src.len() - i,
{
    if i < 0 || i >= src.len() {
    } else if ident_char(src[i]) || (src[i] == '-' && i + 1 < src.len() && alphabetic(src[i + 1])) {
        lemma_dashed_word_end(src, i + 1);
    }
}

/// The word with dashes in it that comes next.
pub open spec fn dashed_word(s: PS) -> Option<Seq<char>> {
    let b = ws_end(s.src, s.at);
    if 0 <= b < s.src.len() && alphabetic(s.src[b]) {
        Some(s.src.subrange(b, dashed_word_end(s.src, b + 1)))
    } else {
        None
    }
}

impl Parser {
    /// The position is one of the input.
    pub open spec fn wf(&self) -> bool {
        self.lx.wf()
    }

    /// The start of `src`, read under `flags`.
    pub fn new(src: &str, flags: &[&str], is_diff: bool) -> (p: Parser)
        requires
            src@.len() <= MAX_CHARS,
        ensures
            p.wf(),
            p@ == initial(src@, flags.deep_view(), is_diff),
    {
        let mut set = no_items::<String>();
        let mut i: usize = 0;
        while i < flags.len()
            invariant
                i <= flags@.len(),
                set.deep_view() == flags.deep_view().take(i as int),
            decreases flags@.len() - i,
        {
            put(&mut set, flags[i].to_string());
            i = i + 1;
            assert(set.deep_view() =~= flags.deep_view().take(i as int));
        }
        assert(set.deep_view() =~= flags.deep_view());
        Parser::from_chars(chars_of(src), set, is_diff)
    }

    /// The start of `src`, read under `flags`.
    pub fn from_chars(src: Vec<char>, flags: Vec<String>, is_diff: bool) -> (p: Parser)
        requires
            src@.len() <= MAX_CHARS,
        ensures
            p.wf(),
            p@ == initial(src@, flags.deep_view(), is_diff),
    {
        let enable_diff = is_diff || crate::text::has_text(&flags, "diff");
        Parser {
            lx: Lexer::from_chars(src),
            sig: SigState {
                fun_syms: pair_fun_syms(),
                ac_fun_syms: no_items::<String>(),
                macro_syms: no_items::<FunSym>(),
                reserved_builtin_names: no_items::<String>(),
                enable_dh: false,
                enable_bp: false,
                enable_xor: false,
                enable_mset: false,
                enable_nat: false,
                enable_diff,
            },
            st: ParserState {
                flags,
                input_aliases: no_items::<InputAlias>(),
                emit_warnings: true,
                axiom_warning: false,
                include_stack: no_items::<String>(),
                files: no_items::<SourceFile>(),
                wanted: None,
                seen: SeenState {
                    rules: no_items::<crate::ast::Rule>(),
                    restriction_names: no_items::<String>(),
                    lemma_names: no_items::<String>(),
                    diff_left_lemma_names: no_items::<String>(),
                    diff_right_lemma_names: no_items::<String>(),
                    diff_lemma_names: no_items::<String>(),
                    predicates: one_item(
                        PredKey { persistent: false, name: "Smaller".to_string(), arity: 2 },
                    ),
                },
            },
            place: FilePlace { is_diff, base_dir: None, source_file: None, staged_file: None },
            mode: Mode { resolve: true, sapic: false, pat: false },
            h: Hangs {
                var_dot: false,
                dot_index: false,
                sort_suffix: false,
                last_ident_end: None,
                var_ident_end: None,
                carry: None,
                annot: None,
                item: None,
            },
        }
    }

    pub fn save(&self) -> (p: Pos)
        requires
            self.wf(),
        ensures
            position_of(self@.src, p),
            p.at == self@.at,
            p.offset == self@.offset(),
            p.offset == offset_at(self@.src, self@.at),
    {
        proof {
            reveal(PS::offset);
        }
        self.lx.pos
    }

    pub fn restore(&mut self, p: Pos)
        requires
            old(self).wf(),
            position_of(old(self)@.src, p),
        ensures
            final(self).wf(),
            final(self)@ == old(self)@.to(p.at as int),
    {
        self.lx.set_pos(p);
    }

    pub fn offset(&self) -> (n: usize)
        requires
            self.wf(),
        ensures
            n == self@.offset(),
            n == offset_at(self@.src, self@.at),
    {
        proof {
            reveal(PS::offset);
        }
        self.lx.pos.offset
    }

    pub fn skip_ws(&mut self)
        requires
            old(self).wf(),
        ensures
            final(self).wf(),
            final(self)@ == old(self)@.ws(),
            old(self)@.past(final(self)@),
    {
        self.lx.skip_ws();
    }

    pub fn peek(&self) -> (c: Option<char>)
        requires
            self.wf(),
        ensures
            c == self@.peek(),
    {
        self.lx.peek()
    }

    pub fn peek2(&self) -> (c: Option<char>)
        requires
            self.wf(),
        ensures
            c == self@.peek_at(1),
    {
        self.lx.peek_at(1)
    }

    pub fn bump(&mut self)
        requires
            old(self).wf(),
        ensures
            final(self).wf(),
            final(self)@ == old(self)@.bump(),
            old(self)@.past(final(self)@),
    {
        self.lx.bump();
    }

    pub fn is_eof(&self) -> (r: bool)
        requires
            self.wf(),
        ensures
            r == self@.eof(),
    {
        self.lx.is_eof()
    }

    pub fn sees(&self, p: &str) -> (r: bool)
        requires
            self.wf(),
        ensures
            r == self@.sees(p@),
    {
        self.lx.sees(p)
    }

    pub fn eat_str(&mut self, p: &str) -> (r: bool)
        requires
            old(self).wf(),
        ensures
            final(self).wf(),
            (r, final(self)@) == old(self)@.eat(p@),
            old(self)@.past(final(self)@),
            r ==> old(self)@.at < final(self)@.at,
    {
        self.lx.eat_str(p)
    }

    pub fn try_punct(&mut self, p: &str) -> (r: bool)
        requires
            old(self).wf(),
        ensures
            final(self).wf(),
            (r, final(self)@) == old(self)@.punct(p@),
            old(self)@.past(final(self)@),
            r ==> old(self)@.at < final(self)@.at,
    {
        proof {
            reveal(PS::punct);
        }
        self.skip_ws();
        if self.lx.eat_str(p) {
            self.skip_ws();
            true
        } else {
            false
        }
    }

    /// Whether `p` comes next behind white space.
    pub fn peek_punct(&mut self, p: &str) -> (r: bool)
        requires
            old(self).wf(),
        ensures
            final(self).wf(),
            final(self)@ == old(self)@,
            r == old(self)@.at_punct(p@),
    {
        let save = self.save();
        let m = self.try_punct(p);
        self.restore(save);
        m
    }

    pub fn try_symbol(&mut self, p: &str) -> (r: bool)
        requires
            old(self).wf(),
        ensures
            final(self).wf(),
            (r, final(self)@) == old(self)@.symbol(p@),
            old(self)@.past(final(self)@),
            r ==> old(self)@.at < final(self)@.at,
    {
        proof {
            reveal(PS::symbol);
        }
        self.lx.try_symbol(p)
    }

    pub fn try_kw(&mut self, k: &str) -> (r: bool)
        requires
            old(self).wf(),
        ensures
            final(self).wf(),
            (r, final(self)@) == old(self)@.kw(k@),
            old(self)@.past(final(self)@),
            r ==> old(self)@.at < final(self)@.at,
    {
        proof {
            reveal(PS::kw);
        }
        let save = self.save();
        if !self.lx.try_symbol(k) {
            return false;
        }
        if self.peek() == Some('-') {
            self.restore(save);
            return false;
        }
        true
    }

    /// Steps over one of two tokens.
    pub fn try_either(&mut self, p: &str, q: &str) -> (r: bool)
        requires
            old(self).wf(),
        ensures
            final(self).wf(),
            (r, final(self)@) == old(self)@.either(p@, q@),
            old(self)@.past(final(self)@),
            r ==> old(self)@.at < final(self)@.at,
    {
        proof {
            reveal(PS::either);
        }
        self.try_punct(p) || self.try_punct(q)
    }

    /// Steps over a word or a token.
    pub fn try_word_or(&mut self, k: &str, p: &str) -> (r: bool)
        requires
            old(self).wf(),
        ensures
            final(self).wf(),
            (r, final(self)@) == old(self)@.word_or(k@, p@),
            old(self)@.past(final(self)@),
            r ==> old(self)@.at < final(self)@.at,
    {
        proof {
            reveal(PS::word_or);
        }
        self.try_kw(k) || self.try_punct(p)
    }

    /// Whether the word `k` comes next.
    pub fn at_keyword(&mut self, k: &str) -> (r: bool)
        requires
            old(self).wf(),
        ensures
            final(self).wf(),
            final(self)@ == old(self)@,
            r == old(self)@.at_kw(k@),
    {
        let save = self.save();
        let m = self.try_kw(k);
        self.restore(save);
        m
    }

    /// How the next character is shown.
    pub fn unexpected_token(&self) -> (r: String)
        requires
            self.wf(),
        ensures
            r@ == self@.token(),
    {
        proof {
            reveal(PS::token);
        }
        match self.peek() {
            Some(c) => show_char_token(c),
            None => String::new(),
        }
    }

    /// An error at this position.
    pub fn error_here(&self, messages: Vec<Message>) -> (e: ParseError)
        requires
            self.wf(),
        ensures
            e.deep_view() == self@.error(messages.deep_view()),
    {
        proof {
            reveal(PS::error);
        }
        ParseError {
            line: self.lx.pos.line,
            col: self.lx.pos.col,
            offset: self.lx.pos.offset,
            source: String::new(),
            messages,
            ghc_error: None,
        }
    }

    /// An error of one plain message.
    pub fn err(&self, msg: &str) -> (e: ParseError)
        requires
            self.wf(),
        ensures
            e.deep_view() == self@.err(msg@),
    {
        self.error_here(one_item(Message::Message(msg.to_string())))
    }

    /// A plain message behind the token that was found.
    pub fn err_unexpected_message(&self, msg: &str) -> (e: ParseError)
        requires
            self.wf(),
        ensures
            e.deep_view() == self@.err_found(msg@),
    {
        let mut v = one_item(Message::SysUnExpect(self.unexpected_token()));
        put(&mut v, Message::Message(msg.to_string()));
        assert(v.deep_view() =~= seq![
            MessageM::SysUnExpect(self@.token()),
            MessageM::Message(msg@),
        ]);
        self.error_here(v)
    }

    /// The token that was found, and what was expected in its place.
    pub fn err_labels(&self, labels: Vec<String>) -> (e: ParseError)
        requires
            self.wf(),
        ensures
            e.deep_view() == self@.err_labels(labels.deep_view()),
    {
        let mut v = one_item(Message::SysUnExpect(self.unexpected_token()));
        put_all(&mut v, expect_messages(labels));
        self.error_here(v)
    }

    /// The error for a missing token, raised behind white space.
    pub fn err_expect(&mut self, labels: Vec<String>) -> (e: ParseError)
        requires
            old(self).wf(),
        ensures
            final(self).wf(),
            (Err::<(), ErrorM>(e.deep_view()), final(self)@) == old(self)@.fail_expect::<()>(
                labels.deep_view(),
            ),
            old(self)@.past(final(self)@),
    {
        self.skip_ws();
        self.err_labels(labels)
    }

    /// A plain message, raised behind white space.
    pub fn err_fail(&mut self, msg: &str) -> (e: ParseError)
        requires
            old(self).wf(),
        ensures
            final(self).wf(),
            (Err::<(), ErrorM>(e.deep_view()), final(self)@) == old(self)@.fail_msg::<()>(msg@),
            old(self)@.past(final(self)@),
    {
        self.skip_ws();
        self.err_unexpected_message(msg)
    }

    /// An exception.
    pub fn err_ghc(&self, message: String, call_site: String) -> (e: ParseError)
        requires
            self.wf(),
        ensures
            e.deep_view() == self@.err_ghc(message@, call_site@),
    {
        proof {
            reveal(PS::error);
        }
        ParseError {
            ghc_error: Some(GhcError { message, call_site }),
            ..self.error_here(no_items::<Message>())
        }
    }

    pub fn require_kw(&mut self, k: &str) -> (r: Result<(), ParseError>)
        requires
            old(self).wf(),
        ensures
            final(self).wf(),
            (outcome(r), final(self)@) == old(self)@.need_kw(k@),
            old(self)@.past(final(self)@),
            r is Ok ==> old(self)@.at < final(self)@.at,
    {
        if self.try_kw(k) {
            Ok(())
        } else {
            Err(self.err_expect(one_item(quote(k))))
        }
    }

    pub fn require_punct(&mut self, p: &str) -> (r: Result<(), ParseError>)
        requires
            old(self).wf(),
        ensures
            final(self).wf(),
            (outcome(r), final(self)@) == old(self)@.need(p@),
            old(self)@.past(final(self)@),
            r is Ok ==> old(self)@.at < final(self)@.at,
    {
        if self.try_punct(p) {
            Ok(())
        } else {
            Err(self.err_expect(one_item(quote(p))))
        }
    }

    /// The identifier that comes next.
    pub fn identifier(&mut self) -> (r: Option<String>)
        requires
            old(self).wf(),
        ensures
            final(self).wf(),
            (r.deep_view(), final(self)@) == old(self)@.name(),
            old(self)@.past(final(self)@),
            r is Some ==> old(self)@.at < final(self)@.at,
    {
        proof {
            reveal(PS::name);
        }
        self.lx.identifier()
    }

    /// The number that comes next.
    pub fn natural(&mut self) -> (r: Option<u64>)
        requires
            old(self).wf(),
        ensures
            final(self).wf(),
            (r, final(self)@) == old(self)@.natural(),
            old(self)@.past(final(self)@),
    {
        proof {
            reveal(PS::natural);
        }
        self.lx.natural()
    }

    /// The text in single quotes that comes next.
    pub fn single_quoted(&mut self) -> (r: Option<String>)
        requires
            old(self).wf(),
        ensures
            final(self).wf(),
            (r.deep_view(), final(self)@) == old(self)@.quoted(),
            old(self)@.past(final(self)@),
    {
        proof {
            reveal(PS::quoted);
        }
        self.lx.single_quoted()
    }

    /// The string literal that comes next.
    pub fn literal(&mut self) -> (r: Option<String>)
        requires
            old(self).wf(),
        ensures
            final(self).wf(),
            (r.deep_view(), final(self)@) == old(self)@.literal(),
            old(self)@.past(final(self)@),
    {
        proof {
            reveal(PS::literal);
            lemma_literal_bounds(self@);
        }
        self.lx.string_literal()
    }

    /// The error for a reserved word in the place of an identifier.
    pub fn err_reserved_word(&mut self) -> (r: Option<ParseError>)
        requires
            old(self).wf(),
        ensures
            final(self).wf(),
            final(self)@ == old(self)@.ws(),
            r.deep_view() == old(self)@.ws().reserved_error(),
            old(self)@.past(final(self)@),
    {
        proof {
            reveal(PS::reserved_error);
        }
        self.skip_ws();
        let save = self.save();
        match self.lx.word() {
            Some((b, e)) => {
                let w = string_of(&self.lx.src, b.at, e.at);
                if !is_reserved_name(&w) {
                    return None;
                }
                let mut m = "reserved word ".to_string();
                m.push_str(&quote(&w));
                let mut v = one_item(Message::UnExpect(m));
                put(&mut v, Message::Expect("letter or digit".to_string()));
                assert(v.deep_view() =~= seq![
                    MessageM::UnExpect("reserved word "@ + quoted(w@)),
                    MessageM::Expect("letter or digit"@),
                ]);
                self.restore(e);
                let err = self.error_here(v);
                self.restore(save);
                Some(err)
            },
            None => None,
        }
    }

    pub fn ident(&mut self) -> (r: Result<String, ParseError>)
        requires
            old(self).wf(),
        ensures
            final(self).wf(),
            (outcome(r), final(self)@) == old(self)@.ident(),
            old(self)@.past(final(self)@),
            r is Ok ==> old(self)@.at < final(self)@.at,
    {
        proof {
            reveal(PS::ident);
        }
        match self.identifier() {
            Some(w) => {
                return Ok(w);
            },
            None => {},
        }
        match self.err_reserved_word() {
            Some(e) => Err(e),
            None => Err(self.err("expected identifier")),
        }
    }

    pub fn string_literal(&mut self) -> (r: Result<String, ParseError>)
        requires
            old(self).wf(),
        ensures
            final(self).wf(),
            (outcome(r), final(self)@) == old(self)@.need_literal(),
            old(self)@.past(final(self)@),
    {
        match self.literal() {
            Some(w) => Ok(w),
            None => Err(self.err("expected string literal")),
        }
    }

    /// Bytes before the end of the word of `n` characters at `start`.
    pub fn ident_end_from(&mut self, start: Pos, n: usize) -> (r: usize)
        requires
            old(self).wf(),
            position_of(old(self)@.src, start),
        ensures
            final(self).wf(),
            final(self)@ == old(self)@,
            r == word_offset(old(self)@.src, start.at as int, n as int),
    {
        proof {
            reveal(word_offset);
        }
        let after = self.save();
        self.restore(start);
        self.skip_ws();
        let ghost b = self@.at;
        let mut k: usize = 0;
        while k < n && !self.is_eof()
            invariant
                self.wf(),
                self@ == old(self)@.to(self@.at),
                k <= n,
                self@.at == b + k,
                b == ws_end(self@.src, start.at as int),
            decreases n - k,
        {
            self.bump();
            k = k + 1;
        }
        let end = self.offset();
        self.restore(after);
        end
    }

    /// Notes that a term has ended.
    pub fn finish_term_carry(&mut self, eqn: bool)
        requires
            old(self).wf(),
        ensures
            final(self).wf(),
            final(self)@ == carried(old(self)@, eqn),
            old(self)@.fwd(final(self)@),
    {
        self.skip_ws();
        let off = self.offset();
        self.h.carry = Some(
            Carry {
                offset: off,
                letter: self.h.var_dot && match self.h.var_ident_end {
                    Some(e) => e == off,
                    None => false,
                },
                dot: self.h.var_dot,
                eqn,
            },
        );
    }

    /// What the term that stopped at `at` could have gone on with.
    pub fn term_carry_labels(&self, at: usize) -> (v: Vec<String>)
        ensures
            v.deep_view() == carry_labels(self@, at as int),
    {
        proof {
            reveal(carry_labels);
        }
        let mut v = no_items::<String>();
        match self.h.carry {
            Some(c) => {
                if c.offset != at {
                    return v;
                }
                if c.letter {
                    put(&mut v, "letter or digit".to_string());
                }
                if c.dot {
                    put(&mut v, "\".\"".to_string());
                }
                put_all(&mut v, quote_backwards(&self.sig.ac_fun_syms));
                if !c.eqn {
                    put_all(&mut v, operators(&self.sig));
                }
                assert(v.deep_view() =~= carry_labels(self@, at as int));
                v
            },
            None => v,
        }
    }

    /// The error for a missing token behind a term or a fact.
    pub fn err_expect_after_term(&mut self, labels: Vec<String>) -> (e: ParseError)
        requires
            old(self).wf(),
        ensures
            final(self).wf(),
            (Err::<(), ErrorM>(e.deep_view()), final(self)@) == fail_after_term::<()>(
                old(self)@,
                labels.deep_view(),
            ),
            old(self)@.past(final(self)@),
    {
        self.skip_ws();
        let off = self.offset();
        let mut v = self.term_carry_labels(off);
        let hangs = match self.h.annot {
            Some(o) => o == off,
            None => false,
        };
        if hangs {
            put(&mut v, "\"[\"".to_string());
        }
        put_all(&mut v, labels);
        assert(v.deep_view() =~= carry_labels(self@, off as int) + (if hangs {
            seq!["\"[\""@]
        } else {
            Seq::empty()
        }) + labels.deep_view());
        self.err_labels(v)
    }

    /// The labels that the last item left at `at`.
    pub fn item_hang_labels(&self, at: usize) -> (v: Vec<String>)
        ensures
            v.deep_view() == hang_labels(self@, at as int),
    {
        proof {
            reveal(hang_labels);
        }
        match self.h.item {
            Some(i) => {
                if i.offset == at {
                    tail_labels(i.tail)
                } else {
                    no_items::<String>()
                }
            },
            None => no_items::<String>(),
        }
    }

    /// The error where no item starts.
    pub fn item_position_error(&mut self) -> (e: ParseError)
        requires
            old(self).wf(),
        ensures
            final(self).wf(),
            (Err::<(), ErrorM>(e.deep_view()), final(self)@) == fail_item::<()>(old(self)@),
            old(self)@.past(final(self)@),
    {
        self.skip_ws();
        let start: usize = self.lx.pos.at;
        self.lx.skip_letters();
        if self.lx.pos.at > start {
            return self.err_labels(labels2("letter", "\"{*\""));
        }
        let off = self.offset();
        let mut v = self.term_carry_labels(off);
        put_all(&mut v, self.item_hang_labels(off));
        put_all(&mut v, item_label_list());
        self.err_labels(v)
    }

    /// A plain message at the end of an item.
    pub fn item_fail(&mut self, msg: &str) -> (e: ParseError)
        requires
            old(self).wf(),
        ensures
            final(self).wf(),
            (Err::<(), ErrorM>(e.deep_view()), final(self)@) == fail_behind_item::<()>(
                old(self)@,
                msg@,
            ),
            old(self)@.past(final(self)@),
    {
        self.skip_ws();
        let off = self.offset();
        let mut v = one_item(Message::SysUnExpect(self.unexpected_token()));
        put_all(&mut v, expect_messages(self.item_hang_labels(off)));
        put(&mut v, Message::Message(msg.to_string()));
        assert(v.deep_view() =~= seq![MessageM::SysUnExpect(self@.token())] + expected(
            hang_labels(self@, off as int),
        ) + seq![MessageM::Message(msg@)]);
        self.error_here(v)
    }

    /// Notes what the item that just ended could have gone on with.
    pub fn set_item_hangover(&mut self, tail: ItemTail)
        requires
            old(self).wf(),
        ensures
            final(self).wf(),
            final(self)@ == item_ended(old(self)@, tail),
            old(self)@.fwd(final(self)@),
    {
        self.skip_ws();
        self.h.item = Some(ItemHang { offset: self.offset(), tail });
    }

    /// Whether a dash with a letter behind it comes next.
    pub fn at_hyphen_join(&self) -> (r: bool)
        requires
            self.wf(),
        ensures
            r == at_join(self@),
    {
        if self.peek() != Some('-') {
            return false;
        }
        match self.peek2() {
            Some(c) => crate::text::is_letter(c),
            None => false,
        }
    }

    /// An identifier that may have dashes in it.
    pub fn hyphen_identifier(&mut self) -> (r: Result<String, ParseError>)
        requires
            old(self).wf(),
        ensures
            final(self).wf(),
            (outcome(r), final(self)@) == dashed_ident(old(self)@),
            old(self)@.past(final(self)@),
            r is Ok ==> old(self)@.at < final(self)@.at,
    {
        let mut s = self.ident()?;
        let ghost target = dashed_rest(self@, s@);
        loop
            invariant
                self.wf(),
                old(self)@.past(self@),
                old(self)@.at < self@.at,
                dashed_ident(old(self)@) == target,
                dashed_rest(self@, s@) == target,
            decreases self@.rem(),
        {
            if !self.at_hyphen_join() {
                return Ok(s);
            }
            self.bump();
            let id = self.ident()?;
            s.push('-');
            s.push_str(&id);
        }
    }

    /// The word with dashes in it that comes next, without moving.
    pub fn peek_hyphen_identifier(&mut self) -> (r: Option<String>)
        requires
            old(self).wf(),
        ensures
            final(self).wf(),
            final(self)@ == old(self)@,
            r.deep_view() == dashed_word(old(self)@),
    {
        let save = self.save();
        self.skip_ws();
        let from: usize = self.lx.pos.at;
        let starts = match self.peek() {
            Some(c) => crate::text::is_letter(c),
            None => false,
        };
        if !starts {
            self.restore(save);
            return None;
        }
        self.bump();
        let ghost b = self@.at;
        loop
            invariant
                self.wf(),
                self@ == old(self)@.to(self@.at),
                save.at == old(self)@.at,
                position_of(self@.src, save),
                from == b - 1,
                from == ws_end(old(self)@.src, old(self)@.at),
                0 <= from < self@.src.len(),
                alphabetic(self@.src[from as int]),
                b <= self@.at <= self@.src.len(),
                dashed_word_end(self@.src, self@.at) == dashed_word_end(self@.src, b),
            decreases self@.rem(),
        {
            let more = match self.peek() {
                Some(c) => is_ident_char(c) || self.at_hyphen_join(),
                None => false,
            };
            if !more {
                let s = string_of(&self.lx.src, from, self.lx.pos.at);
                self.restore(save);
                return Some(s);
            }
            self.bump();
        }
    }
}

proof fn lemma_literal_bounds(s: PS)
    ensures
        s.literal().1 == s.to(s.literal().1.at),
        s.at <= s.literal().1.at,
{
    crate::state::lemma_literal(s);
}

/// The names between quotes, the last one first.
pub fn quote_backwards(names: &Vec<String>) -> (v: Vec<String>)
    ensures
        v.deep_view() == quoted_backwards(names.deep_view()),
{
    let mut v = no_items::<String>();
    let mut i: usize = names.len();
    while i > 0
        invariant
            i <= names@.len(),
            v.deep_view() == quoted_backwards(names.deep_view()).take(names@.len() - i),
        decreases i,
    {
        i = i - 1;
        put(&mut v, quote(&names[i]));
        assert(v.deep_view() =~= quoted_backwards(names.deep_view()).take(names@.len() - i));
    }
    assert(v.deep_view() =~= quoted_backwards(names.deep_view()));
    v
}

/// The infix operators that the signature opens.
pub fn operators(sig: &SigState) -> (v: Vec<String>)
    ensures
        v.deep_view() == operator_labels(sig.deep_view()),
{
    proof {
        reveal(operator_labels);
    }
    let mut v = no_items::<String>();
    if sig.enable_dh {
        put(&mut v, "\"^\"".to_string());
        put(&mut v, "\"*\"".to_string());
    }
    if sig.enable_xor {
        put(&mut v, "\"XOR\"".to_string());
        put(&mut v, "\"⊕\"".to_string());
    }
    if sig.enable_nat {
        put(&mut v, "\"%+\"".to_string());
    }
    if sig.enable_mset {
        put(&mut v, "\"++\"".to_string());
        put(&mut v, "\"+\"".to_string());
    }
    assert(v.deep_view() =~= operator_labels(sig.deep_view()));
    v
}

fn tail_labels(t: ItemTail) -> (v: Vec<String>)
    ensures
        v.deep_view() == t.labels(),
{
    match t {
        ItemTail::Variants => labels1("\"variants\""),
        ItemTail::Comma => labels1("\",\""),
        ItemTail::BracketComma => labels2("\"[\"", "\",\""),
        ItemTail::Proof => {
            let mut v = labels3("\"SOLVED\"", "\"by\"", "\"sorry\"");
            put_all(&mut v, labels3("\"simplify\"", "\"solve\"", "\"contradiction\""));
            put_all(&mut v, labels3("\"induction\"", "\"INVALIDATED\"", "\"UNFINISHABLE\""));
            assert(v.deep_view() =~= t.labels());
            v
        },
    }
}

fn item_label_list() -> (v: Vec<String>)
    ensures
        v.deep_view() == item_labels(),
{
    proof {
        reveal(item_labels);
    }
    let mut v = labels3("\"heuristic\"", "\"tactic\"", "\"builtins\"");
    put_all(&mut v, labels3("\"options\"", "\"functions\"", "\"function\""));
    put_all(&mut v, labels3("\"equations\"", "\"macros\"", "\"restriction\""));
    put_all(&mut v, labels3("\"axiom\"", "\"test\"", "\"lemma\""));
    put_all(&mut v, labels3("\"rule\"", "letter", "top-level process"));
    put_all(&mut v, labels3("\"let\"", "\"equivLemma\"", "\"diffEquivLemma\""));
    put_all(&mut v, labels3("predicate block", "export block", "\"#ifdef\""));
    put_all(&mut v, labels3("\"#define\"", "\"#include\"", "\"end\""));
    assert(v.deep_view() =~= item_labels());
    v
}

} // verus!
