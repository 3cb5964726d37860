//! Reading theories, rules, formulas and goals from text.

use crate::ast::{Formula, FormulaM, GoalSpec, Rule, RuleM, Theory, TheoryM};
use crate::basics::{initial, theory_mode};
use crate::error::{outcome, ErrorM, ParseError};
use crate::formulas::formula;
use crate::goals::parens_goal;
use crate::lexer::MAX_CHARS;
use crate::model::{no_items, one_item, put};
use crate::names::{law_items_that_fit_are_apart, names_apart};
use crate::paths::{file_name_of, parent_of, parent_path, path_file_name};
use crate::proofs::nested;
use crate::rules::rule_variant;
use crate::signature::{
    copy_syms, insert_name, insert_sym, with_name, with_sym, FunSym, FunSymM, MaudeSig, MaudeSigM,
};
use crate::state::{
    group_steps, step, InputAlias, InputAliasM, Mode, Parser, PlaceM, SigM, SourceFile, SourceFileM,
    StateM, Step, PS,
};
use crate::text::{chars_of, ident_char, is_ident_char};
use crate::theory::{file_at, short_files, theory};
use crate::values::copy_text_opt;
use vstd::prelude::*;

verus! {

broadcast use {group_steps, crate::tokens::group_lexer, crate::ast::group_models};

/// What came of reading a theory.
#[derive(Debug)]
pub enum Outcome<T> {
    Done(T),
    Failed(ParseError),
    /// The theory includes a file that is not at hand. It can be read again
    /// once the file, or the reason why it cannot be read, is.
    NeedsFile(String),
}

pub enum OutcomeM<T> {
    Done(T),
    Failed(ErrorM),
    NeedsFile(Seq<char>),
}

/// What came of reading a theory, and whether to warn of a retired `axiom` in it.
#[derive(Debug)]
pub struct Reading<T> {
    pub outcome: Outcome<T>,
    pub axiom_warning: bool,
}

pub struct ReadingM<T> {
    pub outcome: OutcomeM<T>,
    pub axiom_warning: bool,
}

impl<T: DeepView> DeepView for Reading<T> {
    type V = ReadingM<T::V>;

    open spec fn deep_view(&self) -> ReadingM<T::V> {
        ReadingM {
            outcome: match self.outcome {
                Outcome::Done(t) => OutcomeM::Done(t.deep_view()),
                Outcome::Failed(e) => OutcomeM::Failed(e.deep_view()),
                Outcome::NeedsFile(p) => OutcomeM::NeedsFile(p@),
            },
            axiom_warning: self.axiom_warning,
        }
    }
}

/// The reading that the result `r` of a parse and the state after it make.
pub open spec fn reading<T>(r: Result<T, ErrorM>, st: StateM) -> ReadingM<T> {
    ReadingM {
        outcome: match (r, st.wanted) {
            (Ok(t), _) => OutcomeM::Done(t),
            (Err(_), Some(path)) => OutcomeM::NeedsFile(path),
            (Err(e), None) => OutcomeM::Failed(e),
        },
        axiom_warning: st.axiom_warning,
    }
}

/// What holds of every theory that was read: the names of its items are apart;
/// and of every file that is asked for: it is not at hand.
pub open spec fn sound(r: Reading<Theory>, is_diff: bool, files: Seq<SourceFileM>) -> bool {
    match r.outcome {
        Outcome::Done(t) => t.is_diff == is_diff && names_apart(is_diff, t.items.deep_view()),
        Outcome::Failed(_) => true,
        Outcome::NeedsFile(path) => file_at(files, path@, 0) is None,
    }
}

/// The start of a theory that may include the files at hand.
pub open spec fn start(
    src: Seq<char>,
    flags: Seq<Seq<char>>,
    is_diff: bool,
    files: Seq<SourceFileM>,
) -> PS {
    let s = initial(src, flags, is_diff);
    PS { st: StateM { files, ..s.st }, ..s }
}

/// The start of a theory that lies in the directory `base_dir`.
pub open spec fn start_in(
    src: Seq<char>,
    flags: Seq<Seq<char>>,
    is_diff: bool,
    base_dir: Option<Seq<char>>,
    files: Seq<SourceFileM>,
) -> PS {
    let s = initial(src, flags, is_diff);
    PS { st: StateM { files, ..s.st }, place: PlaceM { base_dir, ..s.place }, ..s }
}

/// The start of the theory in the file `root`.
pub open spec fn start_of(
    src: Seq<char>,
    flags: Seq<Seq<char>>,
    is_diff: bool,
    root: Seq<char>,
    files: Seq<SourceFileM>,
) -> PS {
    let s = initial(src, flags, is_diff);
    PS {
        st: StateM {
            files,
            input_aliases: seq![InputAliasM { physical: root, staged: file_name_of(root) }],
            emit_warnings: false,
            ..s.st
        },
        place: PlaceM {
            base_dir: parent_of(root),
            source_file: Some(root),
            staged_file: file_name_of(root),
            ..s.place
        },
        ..s
    }
}

/// The start of the theory in the file `root`, or else of one that lies in the
/// directory `base_dir`.
pub open spec fn begun(
    src: Seq<char>,
    flags: Seq<Seq<char>>,
    is_diff: bool,
    root: Option<Seq<char>>,
    base_dir: Option<Seq<char>>,
    files: Seq<SourceFileM>,
) -> PS {
    match root {
        Some(path) => start_of(src, flags, is_diff, path, files),
        None => start_in(src, flags, is_diff, base_dir, files),
    }
}

/// Whether a word `end` stands right in front of position `k`.
pub open spec fn closing(src: Seq<char>, k: int) -> bool {
    &&& 3 <= k <= src.len()
    &&& src.subrange(k - 3, k) == "end"@
    &&& k > 3 ==> !ident_char(src[k - 4])
    &&& k < src.len() ==> !ident_char(src[k]) && src[k] != '-'
}

/// The state with the text up to position `k` only.
pub open spec fn cut(s: PS, k: int) -> PS {
    PS { src: s.src.take(k), ..s }
}

/// Whether the text up to `k` settles the reading: it is a theory, or a file
/// is asked for.
pub open spec fn settled(r: Step<TheoryM>) -> bool {
    r.0 is Ok || r.1.st.wanted is Some
}

/// What a text is that has no theory in front of an `end`: the error that the
/// whole text gives. A text that is a theory only by what follows its `end` is
/// none.
pub open spec fn unclosed(r: Step<TheoryM>) -> Step<TheoryM> {
    match r {
        (Ok(_), t) => (Err(t.err("no `end` closes the theory"@)), t),
        (Err(e), t) => (Err(e), t),
    }
}

/// The theory that the text starts with, if it ends in front of `k` or later.
pub open spec fn read_from(s: PS, k: int) -> Step<TheoryM>
    decreases s.src.len() + 1 - k,
{
    if k > s.src.len() {
        unclosed(theory(s))
    } else if closing(s.src, k) && settled(theory(cut(s, k))) {
        theory(cut(s, k))
    } else {
        read_from(s, k + 1)
    }
}

/// The theory that the text starts with: it takes up the text up to its
/// closing `end`, the first one up to which the text is a theory. What follows
/// that has no influence.
pub open spec fn read(s: PS) -> Step<TheoryM> {
    read_from(s, 0)
}

/// The ordered list of the first `n` symbols.
pub open spec fn ordered_syms(syms: Seq<FunSymM>, n: int) -> Seq<FunSymM>
    decreases n,
{
    if n <= 0 {
        Seq::empty()
    } else {
        with_sym(ordered_syms(syms, n - 1), syms[n - 1])
    }
}

/// The ordered list of the first `n` names.
pub open spec fn ordered_names(names: Seq<Seq<char>>, n: int) -> Seq<Seq<char>>
    decreases n,
{
    if n <= 0 {
        Seq::empty()
    } else {
        with_name(ordered_names(names, n - 1), names[n - 1])
    }
}

/// The state with the symbols of `sig`.
pub open spec fn seeded(s: PS, sig: MaudeSigM) -> PS {
    PS {
        sig: SigM {
            fun_syms: ordered_syms(sig.st_fun_syms, sig.st_fun_syms.len() as int),
            ac_fun_syms: ordered_names(sig.st_ac_fun_syms, sig.st_ac_fun_syms.len() as int),
            macro_syms: sig.macro_names,
            enable_dh: sig.enable_dh || sig.enable_bp,
            enable_bp: sig.enable_bp,
            enable_xor: sig.enable_xor,
            enable_mset: sig.enable_mset,
            enable_nat: sig.enable_nat,
            ..s.sig
        },
        ..s
    }
}

/// The start of a text whose symbols are those of `sig`, and others that need
/// no declaration.
pub open spec fn rendered(src: Seq<char>, sig: MaudeSigM) -> PS {
    PS {
        mode: Mode { resolve: false, ..theory_mode() },
        ..seeded(initial(src, Seq::empty(), false), sig)
    }
}

/// The intruder rules up to the end, behind those in `acc`.
pub open spec fn intruder_rules(s: PS, acc: Seq<RuleM>) -> Step<Seq<RuleM>>
    decreases s.rem(),
{
    let w = s.ws();
    if w.eof() {
        (Ok(acc), w)
    } else {
        match step(w, rule_variant(w)) {
            (Err(e), s1) => (Err(e), s1),
            (Ok(r), s1) => if w.at < s1.at {
                intruder_rules(s1, acc.push(r))
            } else {
                (Err(s.err(Seq::empty())), s)
            },
        }
    }
}

/// A formula that takes up the text.
#[verifier::opaque]
pub open spec fn whole_formula(s: PS) -> Result<FormulaM, ErrorM> {
    match formula(s) {
        (Err(e), _) => Err(e),
        (Ok(f), s1) => if s1.ws().eof() {
            Ok(f)
        } else {
            Err(s1.ws().err("trailing garbage in formula string"@))
        },
    }
}

fn copy_flags(flags: &[&str]) -> (r: Vec<String>)
    ensures
        r.deep_view() == flags.deep_view(),
{
    let mut r = no_items::<String>();
    let mut i: usize = 0;
    while i < flags.len()
        invariant
            i <= flags@.len(),
            r.deep_view() == flags.deep_view().take(i as int),
        decreases flags@.len() - i,
    {
        put(&mut r, flags[i].to_string());
        i = i + 1;
        assert(r.deep_view() =~= flags.deep_view().take(i as int));
    }
    assert(flags.deep_view().take(flags@.len() as int) =~= flags.deep_view());
    r
}

fn copy_files(files: &Vec<SourceFile>) -> (r: Vec<SourceFile>)
    ensures
        r.deep_view() == files.deep_view(),
{
    let mut r = no_items::<SourceFile>();
    let mut i: usize = 0;
    while i < files.len()
        invariant
            i <= files@.len(),
            r.deep_view() == files.deep_view().take(i as int),
        decreases files@.len() - i,
    {
        let f = SourceFile {
            path: files[i].path.clone(),
            canonical: files[i].canonical.clone(),
            content: match &files[i].content {
                Ok(s) => Ok(s.clone()),
                Err(s) => Err(s.clone()),
            },
        };
        put(&mut r, f);
        i = i + 1;
        assert(r.deep_view() =~= files.deep_view().take(i as int));
    }
    assert(files.deep_view().take(files@.len() as int) =~= files.deep_view());
    r
}

impl Parser {
    /// Takes the symbols of `sig`.
    pub fn seed_signature(&mut self, sig: &MaudeSig)
        requires
            old(self).wf(),
        ensures
            final(self).wf(),
            final(self)@ == seeded(old(self)@, sig.deep_view()),
    {
        let ghost m = sig.deep_view();
        let mut syms = no_items::<FunSym>();
        let mut i: usize = 0;
        while i < sig.st_fun_syms.len()
            invariant
                m == sig.deep_view(),
                i <= sig.st_fun_syms@.len(),
                syms.deep_view() == ordered_syms(m.st_fun_syms, i as int),
            decreases sig.st_fun_syms@.len() - i,
        {
            insert_sym(&mut syms, &sig.st_fun_syms[i].name, sig.st_fun_syms[i].opts);
            assert(m.st_fun_syms[i as int] == sig.st_fun_syms@[i as int].deep_view());
            i = i + 1;
        }
        let mut names = no_items::<String>();
        let mut k: usize = 0;
        while k < sig.st_ac_fun_syms.len()
            invariant
                m == sig.deep_view(),
                k <= sig.st_ac_fun_syms@.len(),
                names.deep_view() == ordered_names(m.st_ac_fun_syms, k as int),
            decreases sig.st_ac_fun_syms@.len() - k,
        {
            insert_name(&mut names, &sig.st_ac_fun_syms[k]);
            assert(m.st_ac_fun_syms[k as int] == sig.st_ac_fun_syms@[k as int]@);
            k = k + 1;
        }
        self.sig.fun_syms = syms;
        self.sig.ac_fun_syms = names;
        self.sig.macro_syms = copy_syms(&sig.macro_names);
        self.sig.enable_dh = sig.enable_dh || sig.enable_bp;
        self.sig.enable_bp = sig.enable_bp;
        self.sig.enable_xor = sig.enable_xor;
        self.sig.enable_mset = sig.enable_mset;
        self.sig.enable_nat = sig.enable_nat;
    }
}

fn reading_of<T: DeepView>(r: Result<T, ParseError>, p: Parser) -> (x: Reading<T>)
    ensures
        x.deep_view() == reading(outcome(r), p@.st),
{
    let axiom_warning = p.st.axiom_warning;
    let outcome = match r {
        Ok(t) => Outcome::Done(t),
        Err(e) => match p.st.wanted {
            Some(path) => Outcome::NeedsFile(path),
            None => Outcome::Failed(e),
        },
    };
    Reading { outcome, axiom_warning }
}

fn is_closing(src: &Vec<char>, k: usize) -> (r: bool)
    ensures
        r == closing(src@, k as int),
{
    proof {
        reveal_strlit("end");
        if 3 <= k <= src@.len() {
            let w = src@.subrange(k - 3, k as int);
            assert(w =~= "end"@ <==> w[0] == 'e' && w[1] == 'n' && w[2] == 'd');
        }
    }
    3 <= k && k <= src.len() && src[k - 3] == 'e' && src[k - 2] == 'n' && src[k - 1] == 'd' && (k
        == 3 || !is_ident_char(src[k - 4])) && (k == src.len() || (!is_ident_char(src[k]) && src[k]
        != '-'))
}

fn text_upto(src: &Vec<char>, k: usize) -> (r: Vec<char>)
    requires
        k <= src@.len(),
    ensures
        r@ == src@.take(k as int),
{
    let mut r: Vec<char> = Vec::new();
    let mut i: usize = 0;
    while i < k
        invariant
            i <= k <= src@.len(),
            r@ == src@.take(i as int),
        decreases k - i,
    {
        r.push(src[i]);
        i = i + 1;
        assert(r@ =~= src@.take(i as int));
    }
    r
}

/// A text, and where it stands.
struct Source<'a> {
    flags: &'a [&'a str],
    is_diff: bool,
    root: Option<String>,
    base_dir: Option<String>,
    files: &'a Vec<SourceFile>,
}

impl<'a> Source<'a> {
    spec fn begun(&self, src: Seq<char>) -> PS {
        begun(
            src,
            self.flags.deep_view(),
            self.is_diff,
            self.root.deep_view(),
            self.base_dir.deep_view(),
            self.files.deep_view(),
        )
    }

    fn parser(&self, src: Vec<char>) -> (p: Parser)
        requires
            src@.len() <= MAX_CHARS,
        ensures
            p.wf(),
            p@ == self.begun(src@),
    {
        let mut p = Parser::from_chars(src, copy_flags(self.flags), self.is_diff);
        p.st.files = copy_files(self.files);
        match &self.root {
            Some(root) => {
                p.place.base_dir = parent_path(root);
                let staged = path_file_name(root);
                p.place.staged_file = copy_text_opt(&staged);
                p.place.source_file = Some(root.clone());
                p.st.input_aliases = one_item(InputAlias { physical: root.clone(), staged });
                p.st.emit_warnings = false;
            },
            None => {
                p.place.base_dir = copy_text_opt(&self.base_dir);
            },
        }
        p
    }

    /// What the parser reads, and what holds of it.
    fn run(&self, src: Vec<char>) -> (r: (Result<Theory, ParseError>, Parser))
        requires
            src@.len() <= MAX_CHARS,
            short_files(self.files.deep_view()),
        ensures
            r.1.wf(),
            (outcome(r.0), r.1@) == theory(self.begun(src@)),
            kept_apart(r.0, self.is_diff),
            r.1@.st.wanted matches Some(path) ==> r.0 is Err && file_at(
                self.files.deep_view(),
                path,
                0,
            ) is None,
    {
        let mut p = self.parser(src);
        let ghost seen = p@.st.seen;
        let t = p.theory();
        proof {
            if t is Ok {
                law_items_that_fit_are_apart(self.is_diff, seen, t->Ok_0.items.deep_view());
            }
        }
        (t, p)
    }

    /// The theory that the text starts with.
    #[verifier::spinoff_prover]
    fn read(&self, input: &str) -> (r: (Result<Theory, ParseError>, Parser))
        requires
            input@.len() <= MAX_CHARS,
            short_files(self.files.deep_view()),
        ensures
            (outcome(r.0), r.1@) == read(self.begun(input@)),
            kept_apart(r.0, self.is_diff),
            r.1@.st.wanted matches Some(path) ==> r.0 is Err && file_at(
                self.files.deep_view(),
                path,
                0,
            ) is None,
    {
        let src = chars_of(input);
        let ghost s = self.begun(input@);
        let mut k: usize = 0;
        while k < src.len() + 1
            invariant
                src@ == input@,
                k <= src@.len() + 1,
                src@.len() <= MAX_CHARS,
                short_files(self.files.deep_view()),
                s == self.begun(input@),
                read(s) == read_from(s, k as int),
            decreases src@.len() + 1 - k,
        {
            if is_closing(&src, k) {
                let (t, p) = self.run(text_upto(&src, k));
                assert(self.begun(src@.take(k as int)) == cut(s, k as int));
                if t.is_ok() || p.st.wanted.is_some() {
                    return (t, p);
                }
            }
            k = k + 1;
        }
        let (t, p) = self.run(src);
        match t {
            Ok(_) => {
                let e = p.err("no `end` closes the theory");
                (Err(e), p)
            },
            Err(e) => (Err(e), p),
        }
    }
}

/// Whether the theory, if there is one, is of that kind and the names of its
/// items are apart.
spec fn kept_apart(r: Result<Theory, ParseError>, is_diff: bool) -> bool {
    r matches Ok(t) ==> t.is_diff == is_diff && names_apart(is_diff, t.items.deep_view())
}

fn parse_in(
    input: &str,
    flags: &[&str],
    is_diff: bool,
    base_dir: Option<String>,
    files: &Vec<SourceFile>,
) -> (r: Reading<Theory>)
    requires
        input@.len() <= MAX_CHARS,
        short_files(files.deep_view()),
    ensures
        r.deep_view() == ({
            let (t, s) = read(
                start_in(
                    input@,
                    flags.deep_view(),
                    is_diff,
                    base_dir.deep_view(),
                    files.deep_view(),
                ),
            );
            reading(t, s.st)
        }),
        sound(r, is_diff, files.deep_view()),
{
    let source = Source { flags, is_diff, root: None, base_dir, files };
    let (t, p) = source.read(input);
    reading_of(t, p)
}

/// Reads a theory. What follows its closing `end` has no influence. The paths of the
/// files that it includes are taken as they are written.
pub fn parse_theory(input: &str, flags: &[&str], files: &Vec<SourceFile>) -> (r: Reading<Theory>)
    requires
        input@.len() <= MAX_CHARS,
        short_files(files.deep_view()),
    ensures
        r.deep_view() == ({
            let (t, s) = read(start(input@, flags.deep_view(), false, files.deep_view()));
            reading(t, s.st)
        }),
        sound(r, false, files.deep_view()),
{
    parse_in(input, flags, false, None, files)
}

/// Reads a diff theory.
pub fn parse_diff_theory(input: &str, flags: &[&str], files: &Vec<SourceFile>) -> (r: Reading<Theory>)
    requires
        input@.len() <= MAX_CHARS,
        short_files(files.deep_view()),
    ensures
        r.deep_view() == ({
            let (t, s) = read(start(input@, flags.deep_view(), true, files.deep_view()));
            reading(t, s.st)
        }),
        sound(r, true, files.deep_view()),
{
    parse_in(input, flags, true, None, files)
}

/// Reads a theory that lies in the directory `base_dir` and may include the
/// files at hand.
pub fn parse_theory_with_base(
    input: &str,
    flags: &[&str],
    base_dir: Option<String>,
    files: &Vec<SourceFile>,
) -> (r: Reading<Theory>)
    requires
        input@.len() <= MAX_CHARS,
        short_files(files.deep_view()),
    ensures
        r.deep_view() == ({
            let (t, s) = read(
                start_in(input@, flags.deep_view(), false, base_dir.deep_view(), files.deep_view()),
            );
            reading(t, s.st)
        }),
        sound(r, false, files.deep_view()),
{
    parse_in(input, flags, false, base_dir, files)
}

/// Reads a diff theory that lies in the directory `base_dir` and may include
/// the files at hand.
pub fn parse_diff_theory_with_base(
    input: &str,
    flags: &[&str],
    base_dir: Option<String>,
    files: &Vec<SourceFile>,
) -> (r: Reading<Theory>)
    requires
        input@.len() <= MAX_CHARS,
        short_files(files.deep_view()),
    ensures
        r.deep_view() == ({
            let (t, s) = read(
                start_in(input@, flags.deep_view(), true, base_dir.deep_view(), files.deep_view()),
            );
            reading(t, s.st)
        }),
        sound(r, true, files.deep_view()),
{
    parse_in(input, flags, true, base_dir, files)
}

/// Reads the theory in the file `root`, and lists that file and every file
/// that is included, in the order in which they are.
pub fn parse_theory_with_manifest(
    input: &str,
    flags: &[&str],
    root: String,
    is_diff: bool,
    files: &Vec<SourceFile>,
) -> (r: Reading<(Theory, Vec<InputAlias>)>)
    requires
        input@.len() <= MAX_CHARS,
        short_files(files.deep_view()),
    ensures
        r.deep_view() == ({
            let (t, s) = read(
                start_of(input@, flags.deep_view(), is_diff, root@, files.deep_view()),
            );
            reading(
                match t {
                    Ok(x) => Ok((x, s.st.input_aliases)),
                    Err(e) => Err(e),
                },
                s.st,
            )
        }),
        match r.outcome {
            Outcome::Done((t, _)) => t.is_diff == is_diff && names_apart(
                is_diff,
                t.items.deep_view(),
            ),
            Outcome::Failed(_) => true,
            Outcome::NeedsFile(path) => file_at(files.deep_view(), path@, 0) is None,
        },
{
    let source = Source { flags, is_diff, root: Some(root), base_dir: None, files };
    let (t, p) = source.read(input);
    let axiom_warning = p.st.axiom_warning;
    let outcome = match t {
        Ok(x) => Outcome::Done((x, p.st.input_aliases)),
        Err(e) => match p.st.wanted {
            Some(path) => Outcome::NeedsFile(path),
            None => Outcome::Failed(e),
        },
    };
    Reading { outcome, axiom_warning }
}

/// Reads rules of the intruder. Their heads may say `(modulo AC)`.
pub fn parse_intruder_rules(msig: &MaudeSig, input: &str) -> (r: Result<Vec<Rule>, ParseError>)
    requires
        input@.len() <= MAX_CHARS,
    ensures
        outcome(r) == intruder_rules(rendered(input@, msig.deep_view()), Seq::empty()).0,
{
    let mut p = Parser::from_chars(chars_of(input), no_items::<String>(), false);
    p.seed_signature(msig);
    p.mode.resolve = false;
    let mut rules = no_items::<Rule>();
    loop
        invariant
            p.wf(),
            intruder_rules(p@, rules.deep_view()) == intruder_rules(
                rendered(input@, msig.deep_view()),
                Seq::empty(),
            ),
        decreases p@.rem(),
    {
        p.skip_ws();
        if p.is_eof() {
            return Ok(rules);
        }
        let r = p.parse_rule_ac()?;
        put(&mut rules, r);
    }
}

/// Reads a formula that takes up the text.
pub fn parse_formula_str(s: &str, msig: &MaudeSig) -> (r: Result<Formula, ParseError>)
    requires
        s@.len() <= MAX_CHARS,
    ensures
        outcome(r) == whole_formula(rendered(s@, msig.deep_view())),
{
    proof {
        reveal(whole_formula);
    }
    let mut p = Parser::from_chars(chars_of(s), no_items::<String>(), false);
    p.seed_signature(msig);
    p.mode.resolve = false;
    let f = p.formula()?;
    p.skip_ws();
    if !p.is_eof() {
        return Err(p.err("trailing garbage in formula string"));
    }
    Ok(f)
}

/// Reads the goal in parentheses at the head of `s`, under the symbols of
/// `parent`, and counts the bytes up to its end.
pub fn parse_parens_goal(s: &str, parent: &Parser) -> (r: Result<(GoalSpec, usize), ParseError>)
    requires
        s@.len() <= MAX_CHARS,
    ensures
        match parens_goal(nested(s@, parent@.sig)) {
            (Ok(g), t) => r is Ok && (r->Ok_0).0.deep_view() == g && (r->Ok_0).1 == t.offset(),
            (Err(e), _) => r is Err && (r->Err_0).deep_view() == e,
        },
{
    let mut p = parent.nested_parser(chars_of(s));
    let g = p.parens_goal()?;
    Ok((g, p.offset()))
}

} // verus!
