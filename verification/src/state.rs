//! The state of a parse, and its model.

use crate::ast::{Rule, RuleM};
use crate::error::{literal_text, ErrorM, GhcErrorM, MessageM};
use crate::lexer::Lexer;
use crate::order::orderly;
use crate::signature::{FunSym, FunSymM};
use crate::tokens::{
    col_at, group_lexer, ident_at, lemma_literal_rest, line_at, natural_at, offset_at, reserved,
    sees, single_quoted_at, string_at, symbol_at, word_at, ws_end,
};
use vstd::prelude::*;

verus! {

broadcast use group_lexer;

/// The labels that an item leaves behind at the position it stopped at.
#[derive(Debug, Clone, Copy, PartialEq, Eq, Structural)]
pub enum ItemTail {
    /// A rule without variants.
    Variants,
    /// A list that another element could have followed.
    Comma,
    /// A list of declarations whose last one has no attributes.
    BracketComma,
    /// A lemma without a proof.
    Proof,
}

impl ItemTail {
    pub open spec fn labels(self) -> Seq<Seq<char>> {
        match self {
            ItemTail::Variants => seq!["\"variants\""@],
            ItemTail::Comma => seq!["\",\""@],
            ItemTail::BracketComma => seq!["\"[\""@, "\",\""@],
            ItemTail::Proof => seq![
                "\"SOLVED\""@,
                "\"by\""@,
                "\"sorry\""@,
                "\"simplify\""@,
                "\"solve\""@,
                "\"contradiction\""@,
                "\"induction\""@,
                "\"INVALIDATED\""@,
                "\"UNFINISHABLE\""@,
            ],
        }
    }
}

/// Where an item stopped, and what could have followed.
#[derive(Debug, Clone, Copy, PartialEq, Eq, Structural)]
pub struct ItemHang {
    pub offset: usize,
    pub tail: ItemTail,
}

/// Where a term stopped: whether its last identifier ended right there,
/// whether an index could have followed, and whether it is part of an equation.
#[derive(Debug, Clone, Copy, PartialEq, Eq, Structural)]
pub struct Carry {
    pub offset: usize,
    pub letter: bool,
    pub dot: bool,
    pub eqn: bool,
}

/// What earlier tokens could have gone on with. It shows in the error that is
/// raised at the position they stopped at.
#[derive(Debug, Clone, Copy, PartialEq, Eq, Structural)]
pub struct Hangs {
    /// The last atom was a variable that an index could have followed.
    pub var_dot: bool,
    /// The last variable had an index.
    pub dot_index: bool,
    /// The last variable had a sort behind a colon.
    pub sort_suffix: bool,
    /// Where the characters of the last identifier of a term ended.
    pub last_ident_end: Option<usize>,
    /// The same for the variable of `var_dot`.
    pub var_ident_end: Option<usize>,
    /// Where the last term stopped.
    pub carry: Option<Carry>,
    /// Where a fact stopped that has no annotations.
    pub annot: Option<usize>,
    /// Where the last item stopped.
    pub item: Option<ItemHang>,
}

/// How variables and applications are read.
#[derive(Debug, Clone, Copy, PartialEq, Eq, Structural)]
pub struct Mode {
    /// Heads of applications must be declared.
    pub resolve: bool,
    /// A colon behind a variable names a type.
    pub sapic: bool,
    /// `=x` is a term.
    pub pat: bool,
}

/// The signature as far as it was declared.
pub struct SigState {
    pub fun_syms: Vec<FunSym>,
    pub ac_fun_syms: Vec<String>,
    pub macro_syms: Vec<FunSym>,
    pub reserved_builtin_names: Vec<String>,
    pub enable_dh: bool,
    pub enable_bp: bool,
    pub enable_xor: bool,
    pub enable_mset: bool,
    pub enable_nat: bool,
    pub enable_diff: bool,
}

pub struct SigM {
    pub fun_syms: Seq<FunSymM>,
    pub ac_fun_syms: Seq<Seq<char>>,
    pub macro_syms: Seq<FunSymM>,
    pub reserved_builtin_names: Seq<Seq<char>>,
    pub enable_dh: bool,
    pub enable_bp: bool,
    pub enable_xor: bool,
    pub enable_mset: bool,
    pub enable_nat: bool,
    pub enable_diff: bool,
}

impl DeepView for SigState {
    type V = SigM;

    open spec fn deep_view(&self) -> SigM {
        SigM {
            fun_syms: self.fun_syms.deep_view(),
            ac_fun_syms: self.ac_fun_syms.deep_view(),
            macro_syms: self.macro_syms.deep_view(),
            reserved_builtin_names: self.reserved_builtin_names.deep_view(),
            enable_dh: self.enable_dh,
            enable_bp: self.enable_bp,
            enable_xor: self.enable_xor,
            enable_mset: self.enable_mset,
            enable_nat: self.enable_nat,
            enable_diff: self.enable_diff,
        }
    }
}

/// What identifies a predicate.
#[derive(Debug)]
pub struct PredKey {
    pub persistent: bool,
    pub name: String,
    pub arity: usize,
}

pub struct PredKeyM {
    pub persistent: bool,
    pub name: Seq<char>,
    pub arity: int,
}

impl DeepView for PredKey {
    type V = PredKeyM;

    open spec fn deep_view(&self) -> PredKeyM {
        PredKeyM { persistent: self.persistent, name: self.name@, arity: self.arity as int }
    }
}

/// The names that were declared.
pub struct SeenState {
    pub rules: Vec<Rule>,
    pub restriction_names: Vec<String>,
    pub lemma_names: Vec<String>,
    pub diff_left_lemma_names: Vec<String>,
    pub diff_right_lemma_names: Vec<String>,
    pub diff_lemma_names: Vec<String>,
    pub predicates: Vec<PredKey>,
}

pub struct SeenM {
    pub rules: Seq<RuleM>,
    pub restriction_names: Seq<Seq<char>>,
    pub lemma_names: Seq<Seq<char>>,
    pub diff_left_lemma_names: Seq<Seq<char>>,
    pub diff_right_lemma_names: Seq<Seq<char>>,
    pub diff_lemma_names: Seq<Seq<char>>,
    pub predicates: Seq<PredKeyM>,
}

impl DeepView for SeenState {
    type V = SeenM;

    open spec fn deep_view(&self) -> SeenM {
        SeenM {
            rules: self.rules.deep_view(),
            restriction_names: self.restriction_names.deep_view(),
            lemma_names: self.lemma_names.deep_view(),
            diff_left_lemma_names: self.diff_left_lemma_names.deep_view(),
            diff_right_lemma_names: self.diff_right_lemma_names.deep_view(),
            diff_lemma_names: self.diff_lemma_names.deep_view(),
            predicates: self.predicates.deep_view(),
        }
    }
}

/// One source file of a theory, and the path it has when it is staged beside
/// the root theory; no such path for a file named by an absolute path.
#[derive(Debug, Clone)]
pub struct InputAlias {
    pub physical: String,
    pub staged: Option<String>,
}

pub struct InputAliasM {
    pub physical: Seq<char>,
    pub staged: Option<Seq<char>>,
}

impl DeepView for InputAlias {
    type V = InputAliasM;

    open spec fn deep_view(&self) -> InputAliasM {
        InputAliasM { physical: self.physical@, staged: self.staged.deep_view() }
    }
}

/// A file that was looked up for an inclusion.
#[derive(Debug)]
pub struct SourceFile {
    /// The path it was asked for under.
    pub path: String,
    /// The path that all names of the file share.
    pub canonical: String,
    /// What it holds, or why it could not be read.
    pub content: Result<String, String>,
}

pub struct SourceFileM {
    pub path: Seq<char>,
    pub canonical: Seq<char>,
    pub content: Result<Seq<char>, Seq<char>>,
}

impl DeepView for SourceFile {
    type V = SourceFileM;

    open spec fn deep_view(&self) -> SourceFileM {
        SourceFileM {
            path: self.path@,
            canonical: self.canonical@,
            content: match self.content {
                Ok(s) => Ok(s@),
                Err(s) => Err(s@),
            },
        }
    }
}

/// What an included file takes over from the file that names it, and gives
/// back to it, beside the signature.
pub struct ParserState {
    pub flags: Vec<String>,
    pub input_aliases: Vec<InputAlias>,
    pub emit_warnings: bool,
    /// A retired `axiom` was read while warnings are wanted.
    pub axiom_warning: bool,
    /// The files that are being read, outermost first, by their canonical paths.
    pub include_stack: Vec<String>,
    /// The files that are at hand.
    pub files: Vec<SourceFile>,
    /// The path of a file that was named and is not at hand.
    pub wanted: Option<String>,
    pub seen: SeenState,
}

pub struct StateM {
    pub flags: Seq<Seq<char>>,
    pub input_aliases: Seq<InputAliasM>,
    pub emit_warnings: bool,
    pub axiom_warning: bool,
    pub include_stack: Seq<Seq<char>>,
    pub files: Seq<SourceFileM>,
    pub wanted: Option<Seq<char>>,
    pub seen: SeenM,
}

impl DeepView for ParserState {
    type V = StateM;

    open spec fn deep_view(&self) -> StateM {
        StateM {
            flags: self.flags.deep_view(),
            input_aliases: self.input_aliases.deep_view(),
            emit_warnings: self.emit_warnings,
            axiom_warning: self.axiom_warning,
            include_stack: self.include_stack.deep_view(),
            files: self.files.deep_view(),
            wanted: self.wanted.deep_view(),
            seen: self.seen.deep_view(),
        }
    }
}

/// The file a parse reads.
pub struct FilePlace {
    pub is_diff: bool,
    /// Directory that inclusions are relative to.
    pub base_dir: Option<String>,
    pub source_file: Option<String>,
    pub staged_file: Option<String>,
}

pub struct PlaceM {
    pub is_diff: bool,
    pub base_dir: Option<Seq<char>>,
    pub source_file: Option<Seq<char>>,
    pub staged_file: Option<Seq<char>>,
}

impl DeepView for FilePlace {
    type V = PlaceM;

    open spec fn deep_view(&self) -> PlaceM {
        PlaceM {
            is_diff: self.is_diff,
            base_dir: self.base_dir.deep_view(),
            source_file: self.source_file.deep_view(),
            staged_file: self.staged_file.deep_view(),
        }
    }
}

/// A parse under way.
pub struct Parser {
    pub lx: Lexer,
    pub sig: SigState,
    pub st: ParserState,
    pub place: FilePlace,
    pub mode: Mode,
    pub h: Hangs,
}

/// The model of a [`Parser`].
pub struct PS {
    pub src: Seq<char>,
    pub at: int,
    pub sig: SigM,
    pub st: StateM,
    pub place: PlaceM,
    pub mode: Mode,
    pub h: Hangs,
}

impl View for Parser {
    type V = PS;

    open spec fn view(&self) -> PS {
        PS {
            src: self.lx.src@,
            at: self.lx.index(),
            sig: self.sig.deep_view(),
            st: self.st.deep_view(),
            place: self.place.deep_view(),
            mode: self.mode,
            h: self.h,
        }
    }
}

/// The result of a step of a parse, and the state after it.
pub type Step<T> = (Result<T, ErrorM>, PS);

impl PS {
    /// The same state at another position.
    pub open spec fn to(self, i: int) -> PS {
        PS { at: i, ..self }
    }

    /// Characters that are left.
    pub open spec fn rem(self) -> int {
        if self.at < self.src.len() {
            self.src.len() - self.at
        } else {
            0
        }
    }

    /// Whether `o` is this state, or a later one that differs in the position only.
    pub open spec fn past(self, o: PS) -> bool {
        o == self.to(o.at) && self.at <= o.at <= self.src.len()
    }

    /// Whether `o` is this state, or a later one that differs in the position
    /// and in what hangs over only.
    pub open spec fn fwd(self, o: PS) -> bool {
        o == (PS { at: o.at, h: o.h, ..self }) && self.at <= o.at <= self.src.len()
    }

    /// Whether `o` is this state, or a later one of the same parse.
    pub open spec fn ahead(self, o: PS) -> bool {
        &&& o.src == self.src
        &&& o.place == self.place
        &&& o.mode == self.mode
        &&& o.st.files == self.st.files
        &&& o.st.include_stack == self.st.include_stack
        &&& self.at <= o.at <= self.src.len()
    }

    /// Whether `o` is a later state of the same parse, and only items of the
    /// text at hand were read in between.
    pub open spec fn within(self, o: PS) -> bool {
        &&& self.ahead(o)
        &&& o.st == (StateM {
            seen: o.st.seen,
            flags: o.st.flags,
            axiom_warning: o.st.axiom_warning,
            ..self.st
        })
        &&& orderly(self.sig) ==> orderly(o.sig)
    }

    /// Whether `o` is a later state of the same parse that may know more functions.
    pub open spec fn extends(self, o: PS) -> bool {
        self.within(o) && o.st == self.st
    }

    /// The next character.
    pub open spec fn peek(self) -> Option<char> {
        self.peek_at(0)
    }

    /// The character `k` places on.
    pub open spec fn peek_at(self, k: int) -> Option<char> {
        if 0 <= self.at + k < self.src.len() {
            Some(self.src[self.at + k])
        } else {
            None
        }
    }

    pub open spec fn bump(self) -> PS {
        if 0 <= self.at < self.src.len() {
            self.to(self.at + 1)
        } else {
            self
        }
    }

    /// Behind white space and comments.
    pub open spec fn ws(self) -> PS {
        self.to(ws_end(self.src, self.at))
    }

    pub open spec fn eof(self) -> bool {
        self.at == self.src.len()
    }

    pub open spec fn sees(self, p: Seq<char>) -> bool {
        sees(self.src, self.at, p)
    }

    /// Bytes before the position.
    #[verifier::opaque]
    pub open spec fn offset(self) -> usize {
        offset_at(self.src, self.at) as usize
    }

    /// Steps over `p` if it comes next.
    pub open spec fn eat(self, p: Seq<char>) -> (bool, PS) {
        if self.sees(p) {
            (true, self.to(self.at + p.len()))
        } else {
            (false, self)
        }
    }

    /// Steps over `p`, and the white space on both sides of it, if it comes
    /// next. The white space before it is stepped over in any case.
    #[verifier::opaque]
    pub open spec fn punct(self, p: Seq<char>) -> (bool, PS) {
        let s = self.ws();
        if s.sees(p) {
            (true, s.to(s.at + p.len()).ws())
        } else {
            (false, s)
        }
    }

    /// Whether `p` comes next behind white space.
    pub open spec fn at_punct(self, p: Seq<char>) -> bool {
        self.punct(p).0
    }

    /// Steps over the word `k` if it comes next and no dash follows it.
    #[verifier::opaque]
    pub open spec fn kw(self, k: Seq<char>) -> (bool, PS) {
        match symbol_at(self.src, self.at, k) {
            Some(e) => if self.to(e).peek() == Some('-') {
                (false, self)
            } else {
                (true, self.to(e))
            },
            None => (false, self),
        }
    }

    /// Whether the word `k` comes next and no dash follows it.
    pub open spec fn at_kw(self, k: Seq<char>) -> bool {
        self.kw(k).0
    }

    /// Steps over one of two tokens.
    #[verifier::opaque]
    pub open spec fn either(self, p: Seq<char>, q: Seq<char>) -> (bool, PS) {
        let (a, s) = self.punct(p);
        if a {
            (true, s)
        } else {
            s.punct(q)
        }
    }

    /// Steps over a word or a token.
    #[verifier::opaque]
    pub open spec fn word_or(self, k: Seq<char>, p: Seq<char>) -> (bool, PS) {
        let (a, s) = self.kw(k);
        if a {
            (true, s)
        } else {
            s.punct(p)
        }
    }

    /// Steps over the symbol `p` if it comes next.
    #[verifier::opaque]
    pub open spec fn symbol(self, p: Seq<char>) -> (bool, PS) {
        match symbol_at(self.src, self.at, p) {
            Some(e) => (true, self.to(e)),
            None => (false, self),
        }
    }

    /// The identifier that comes next.
    #[verifier::opaque]
    pub open spec fn name(self) -> (Option<Seq<char>>, PS) {
        match ident_at(self.src, self.at) {
            Some((w, e)) => (Some(w), self.to(e)),
            None => (None, self),
        }
    }

    /// The number that comes next.
    #[verifier::opaque]
    pub open spec fn natural(self) -> (Option<u64>, PS) {
        match natural_at(self.src, self.at) {
            Some((n, e)) => (Some(n), self.to(e)),
            None => (None, self),
        }
    }

    /// The text in single quotes that comes next.
    #[verifier::opaque]
    pub open spec fn quoted(self) -> (Option<Seq<char>>, PS) {
        match single_quoted_at(self.src, self.at) {
            Some((w, e)) => (Some(w), self.to(e)),
            None => (None, self),
        }
    }

    /// The string literal that comes next.
    #[verifier::opaque]
    pub open spec fn literal(self) -> (Option<Seq<char>>, PS) {
        match string_at(self.src, self.at) {
            Some((w, e)) => (Some(w), self.to(e)),
            None => (None, self),
        }
    }

    /// How the next character is shown; empty at the end.
    #[verifier::opaque]
    pub open spec fn token(self) -> Seq<char> {
        match self.peek() {
            Some(c) => literal_text(seq![c]),
            None => Seq::empty(),
        }
    }

    /// An error at this position.
    #[verifier::opaque]
    pub open spec fn error(self, messages: Seq<MessageM>) -> ErrorM {
        ErrorM {
            line: line_at(self.src, self.at),
            col: col_at(self.src, self.at),
            offset: offset_at(self.src, self.at),
            source: Seq::empty(),
            messages,
            ghc: None,
        }
    }

    /// An error of one plain message.
    pub open spec fn err(self, msg: Seq<char>) -> ErrorM {
        self.error(seq![MessageM::Message(msg)])
    }

    /// A plain message behind the token that was found.
    pub open spec fn err_found(self, msg: Seq<char>) -> ErrorM {
        self.error(seq![MessageM::SysUnExpect(self.token()), MessageM::Message(msg)])
    }

    /// The token that was found, and what was expected in its place.
    pub open spec fn err_labels(self, labels: Seq<Seq<char>>) -> ErrorM {
        self.error(seq![MessageM::SysUnExpect(self.token())] + expected(labels))
    }

    /// An exception.
    pub open spec fn err_ghc(self, message: Seq<char>, call_site: Seq<char>) -> ErrorM {
        ErrorM { ghc: Some(GhcErrorM { message, call_site }), ..self.error(Seq::empty()) }
    }

    /// The error for a missing token, raised behind white space.
    pub open spec fn fail_expect<T>(self, labels: Seq<Seq<char>>) -> Step<T> {
        (Err(self.ws().err_labels(labels)), self.ws())
    }

    /// A plain message, raised behind white space.
    pub open spec fn fail_msg<T>(self, msg: Seq<char>) -> Step<T> {
        (Err(self.ws().err_found(msg)), self.ws())
    }

    /// The word `k`, or the error that it was expected.
    pub open spec fn need_kw(self, k: Seq<char>) -> Step<()> {
        let (ok, s) = self.kw(k);
        if ok {
            (Ok(()), s)
        } else {
            s.fail_expect(seq![crate::text::quoted(k)])
        }
    }

    /// The token `p`, or the error that it was expected.
    pub open spec fn need(self, p: Seq<char>) -> Step<()> {
        let (ok, s) = self.punct(p);
        if ok {
            (Ok(()), s)
        } else {
            s.fail_expect(seq![crate::text::quoted(p)])
        }
    }

    /// The error for a reserved word in the place of an identifier, if one stands here.
    #[verifier::opaque]
    pub open spec fn reserved_error(self) -> Option<ErrorM> {
        match word_at(self.src, self.at) {
            Some((b, e)) => {
                let w = self.src.subrange(b, e);
                if reserved(w) {
                    Some(
                        self.to(e).error(
                            seq![
                                MessageM::UnExpect("reserved word "@ + crate::text::quoted(w)),
                                MessageM::Expect("letter or digit"@),
                            ],
                        ),
                    )
                } else {
                    None
                }
            },
            None => None,
        }
    }

    /// An identifier, or the error that it was expected.
    #[verifier::opaque]
    pub open spec fn ident(self) -> Step<Seq<char>> {
        match self.name() {
            (Some(w), s) => (Ok(w), s),
            (None, s) => match s.ws().reserved_error() {
                Some(e) => (Err(e), s.ws()),
                None => (Err(s.ws().err("expected identifier"@)), s.ws()),
            },
        }
    }

    /// A string literal, or the error that it was expected.
    pub open spec fn need_literal(self) -> Step<Seq<char>> {
        match self.literal() {
            (Some(w), s) => (Ok(w), s),
            (None, s) => (Err(s.err("expected string literal"@)), s),
        }
    }
}

/// The labels as messages.
pub open spec fn expected(labels: Seq<Seq<char>>) -> Seq<MessageM> {
    Seq::new(labels.len(), |i: int| MessageM::Expect(labels[i]))
}

/// The step `r`, if it leads from `s` to a state that lies ahead of it. The
/// steps of a parse do; saying so makes the grammar well-founded.
pub open spec fn step<T>(s: PS, r: Step<T>) -> Step<T> {
    if s.fwd(r.1) {
        r
    } else {
        (Err(s.err(Seq::empty())), s)
    }
}

/// Passing a token goes forward.
pub broadcast proof fn lemma_punct(s: PS, p: Seq<char>)
    ensures
        #![trigger s.punct(p)]
        s.punct(p).1 == s.to(s.punct(p).1.at),
        s.at <= s.punct(p).1.at,
        s.at <= s.src.len() ==> s.punct(p).1.at <= s.src.len(),
        s.punct(p).0 ==> s.at < s.punct(p).1.at <= s.src.len(),
{
    reveal(PS::punct);
}

pub broadcast proof fn lemma_kw(s: PS, k: Seq<char>)
    ensures
        #![trigger s.kw(k)]
        s.kw(k).1 == s.to(s.kw(k).1.at),
        s.at <= s.kw(k).1.at,
        s.at <= s.src.len() ==> s.kw(k).1.at <= s.src.len(),
        s.kw(k).0 ==> s.at < s.kw(k).1.at <= s.src.len(),
        !s.kw(k).0 ==> s.kw(k).1 == s,
{
    reveal(PS::kw);
}

pub broadcast proof fn lemma_either(s: PS, p: Seq<char>, q: Seq<char>)
    ensures
        #![trigger s.either(p, q)]
        s.either(p, q).1 == s.to(s.either(p, q).1.at),
        s.at <= s.either(p, q).1.at,
        s.at <= s.src.len() ==> s.either(p, q).1.at <= s.src.len(),
        s.either(p, q).0 ==> s.at < s.either(p, q).1.at <= s.src.len(),
{
    reveal(PS::either);
    lemma_punct(s, p);
    lemma_punct(s.punct(p).1, q);
}

pub broadcast proof fn lemma_word_or(s: PS, k: Seq<char>, p: Seq<char>)
    ensures
        #![trigger s.word_or(k, p)]
        s.word_or(k, p).1 == s.to(s.word_or(k, p).1.at),
        s.at <= s.word_or(k, p).1.at,
        s.at <= s.src.len() ==> s.word_or(k, p).1.at <= s.src.len(),
        s.word_or(k, p).0 ==> s.at < s.word_or(k, p).1.at <= s.src.len(),
{
    reveal(PS::word_or);
    lemma_kw(s, k);
    lemma_punct(s.kw(k).1, p);
}

pub broadcast proof fn lemma_symbol(s: PS, k: Seq<char>)
    ensures
        #![trigger s.symbol(k)]
        s.symbol(k).1 == s.to(s.symbol(k).1.at),
        s.at <= s.symbol(k).1.at,
        s.at <= s.src.len() ==> s.symbol(k).1.at <= s.src.len(),
        s.symbol(k).0 ==> s.at < s.symbol(k).1.at <= s.src.len(),
        !s.symbol(k).0 ==> s.symbol(k).1 == s,
{
    reveal(PS::symbol);
}

pub broadcast proof fn lemma_name(s: PS)
    ensures
        #![trigger s.name()]
        s.name().1 == s.to(s.name().1.at),
        s.at <= s.name().1.at,
        s.at <= s.src.len() ==> s.name().1.at <= s.src.len(),
        s.name().0 is Some ==> s.at < s.name().1.at <= s.src.len(),
        s.name().0 is None ==> s.name().1 == s,
{
    reveal(PS::name);
}

pub broadcast proof fn lemma_natural(s: PS)
    ensures
        #![trigger s.natural()]
        s.natural().1 == s.to(s.natural().1.at),
        s.at <= s.natural().1.at,
        s.at <= s.src.len() ==> s.natural().1.at <= s.src.len(),
        s.natural().0 is None ==> s.natural().1 == s,
{
    reveal(PS::natural);
}

pub broadcast proof fn lemma_quoted(s: PS)
    ensures
        #![trigger s.quoted()]
        s.quoted().1 == s.to(s.quoted().1.at),
        s.at <= s.quoted().1.at,
        s.at <= s.src.len() ==> s.quoted().1.at <= s.src.len(),
        s.quoted().0 is None ==> s.quoted().1 == s,
{
    reveal(PS::quoted);
}

pub broadcast proof fn lemma_literal(s: PS)
    ensures
        #![trigger s.literal()]
        s.literal().1 == s.to(s.literal().1.at),
        s.at <= s.literal().1.at,
        s.at <= s.src.len() ==> s.literal().1.at <= s.src.len(),
        s.literal().0 is None ==> s.literal().1 == s,
{
    reveal(PS::literal);
    lemma_literal_rest(s.src, ws_end(s.src, s.at) + 1, Seq::empty());
}

pub broadcast proof fn lemma_ident(s: PS)
    ensures
        #![trigger s.ident()]
        s.ident().1 == s.to(s.ident().1.at),
        s.at <= s.ident().1.at,
        s.at <= s.src.len() ==> s.ident().1.at <= s.src.len(),
        s.ident().0 is Ok ==> s.at < s.ident().1.at <= s.src.len(),
{
    reveal(PS::ident);
    lemma_name(s);
}

pub broadcast group group_steps {
    lemma_punct,
    lemma_kw,
    lemma_either,
    lemma_word_or,
    lemma_symbol,
    lemma_name,
    lemma_natural,
    lemma_quoted,
    lemma_literal,
    lemma_ident,
    crate::tokens::lemma_ws_end,
}

} // verus!
