//! Equations, macros and predicates.

use crate::ast::{
    Equation, EquationM, Fact, FactM, ItemM, Macro, MacroM, Predicate, PredicateM, VarM, VarSpec,
};
use crate::basics::{
    carry_labels, expect_messages, fail_after_term, item_ended, labels1, operator_labels, operators,
    quote_backwards, quoted_backwards,
};
use crate::comments::{uncomment, uncommented};
use crate::debug::{fact_text, pred_fact_text};
use crate::error::{outcome, ErrorM, Message, MessageM, ParseError};
use crate::facts::fact;
use crate::formulas::formula;
use crate::lists::var_list;
use crate::model::{no_items, one_item, put, put_all};
use crate::names::{fits, follows, keys_of, lemma_admitted, noted};
use crate::signature::{has_sym, named_in, theory_noeq_syms, FunOptions, FunSym, FunSymM};
use crate::state::{
    expected, group_steps, step, ItemTail, Parser, PredKey, PredKeyM, SeenM, SigM, StateM, Step, PS,
};
use crate::terms::{equation_side, reserved_function_message, term};
use crate::text::{chars_of, has_text, quote, quoted, same, white_space};
use crate::tokens::offset_at;
use crate::vars::{algebra_syms, builtin_name, is_builtin_name};
use vstd::prelude::*;

verus! {

broadcast use {group_steps, crate::tokens::group_lexer, crate::ast::group_models};

/// An equation.
#[verifier::opaque]
pub open spec fn equation(s: PS) -> Step<EquationM> {
    match equation_side(s) {
        (Err(e), s1) => (Err(e), s1),
        (Ok(lhs), s1) => {
            let (ok, s2) = s1.punct("="@);
            if !ok {
                fail_after_term(s2, seq!["\"=\""@])
            } else {
                match equation_side(s2) {
                    (Err(e), s3) => (Err(e), s3),
                    (Ok(rhs), s3) => (Ok((EquationM { lhs, rhs })), s3),
                }
            }
        },
    }
}

/// The equations behind `acc`.
pub open spec fn more_equations(s: PS, acc: Seq<EquationM>) -> Step<Seq<EquationM>>
    decreases s.rem(),
{
    match step(s, equation(s)) {
        (Err(e), s1) => (Err(e), s1),
        (Ok(x), s1) => {
            let (more, s2) = s1.punct(","@);
            if more {
                more_equations(s2, acc.push(x))
            } else {
                (Ok(acc.push(x)), item_ended(s2, ItemTail::Comma))
            }
        },
    }
}

/// Whether the equations are said to be convergent.
#[verifier::opaque]
pub open spec fn convergent(s: PS) -> Step<bool> {
    let (open, s1) = s.punct("["@);
    if !open {
        (Ok(false), s1)
    } else {
        match s1.need_kw("convergent"@) {
            (Err(e), s2) => (Err(e), s2),
            (Ok(_), s2) => match s2.need("]"@) {
                (Err(e), s3) => (Err(e), s3),
                (Ok(_), s3) => (Ok(true), s3),
            },
        }
    }
}

/// The equations of a theory.
#[verifier::opaque]
pub open spec fn equations(s: PS) -> Step<(bool, Seq<EquationM>)> {
    match s.need_kw("equations"@) {
        (Err(e), s1) => (Err(e), s1),
        (Ok(_), s1) => match convergent(s1) {
            (Err(e), s2) => (Err(e), s2),
            (Ok(c), s2) => match s2.need(":"@) {
                (Err(e), s3) => (Err(e), s3),
                (Ok(_), s3) => match more_equations(s3, Seq::empty()) {
                    (Err(e), s4) => (Err(e), s4),
                    (Ok(eqs), s4) => (Ok((c, eqs)), s4),
                },
            },
        },
    }
}

/// Where an exception of the macros is raised.
pub open spec fn macro_call_site(site: Seq<char>) -> Seq<char> {
    "src/Theory/Text/Parser/Macro.hs:"@ + site
        + " in tamarin-prover-theory-1.13.0-8wixYaxm5uHCGl2uEzaKzP:Theory.Text.Parser.Macro"@
}

/// Whether two variables are the same argument, whatever their types.
pub open spec fn same_arg(a: VarM, b: VarM) -> bool {
    a.name == b.name && a.idx == b.idx && a.sort == b.sort
}

/// Whether two of the arguments are the same.
pub open spec fn repeats(args: Seq<VarM>) -> bool {
    exists|i: int, j: int| 0 <= i < j < args.len() && same_arg(#[trigger] args[i], #[trigger] args[j])
}

/// Whether the signature has a symbol or a macro of that name.
pub open spec fn macro_taken(sig: SigM, name: Seq<char>) -> bool {
    named_in(sig.fun_syms, name) || sig.ac_fun_syms.contains(name) || named_in(
        sig.macro_syms,
        name,
    ) || named_in(algebra_syms(sig), name)
}

/// The error for a macro whose name is taken.
#[verifier::opaque]
pub open spec fn macro_conflict<T>(s: PS, name: Seq<char>) -> Step<T> {
    let w = s.ws();
    (
        Err(
            w.error(
                seq![
                    MessageM::SysUnExpect(w.token()),
                    MessageM::Message("Conflicting name for macro "@ + name),
                ] + expected(
                    (if w.h.var_dot {
                        seq!["\".\""@]
                    } else {
                        Seq::empty()
                    }) + quoted_backwards(w.sig.ac_fun_syms) + operator_labels(w.sig),
                ),
            ),
        ),
        w,
    )
}

/// How a macro stands in the signature.
pub open spec fn macro_sym(name: Seq<char>, n: int) -> FunSymM {
    FunSymM {
        name,
        opts: FunOptions {
            arity: n as usize,
            private: true,
            destructor: true,
            ndc: false,
            ndc_diff: false,
        },
    }
}

/// The arguments of a macro, behind its name.
#[verifier::opaque]
pub open spec fn macro_args(s: PS, name: Seq<char>) -> Step<Seq<VarM>> {
    match s.need("("@) {
        (Err(e), s1) => (Err(e), s1),
        (Ok(_), s1) => match var_list(s1, ")"@) {
            (Err(e), s2) => (Err(e), s2),
            (Ok(args), s2) => if repeats(args) {
                (
                    Err(
                        s2.err_ghc(
                            quoted(name) + " have two arguments with the same name."@,
                            macro_call_site("38:15"@),
                        ),
                    ),
                    s2,
                )
            } else {
                (Ok(args), s2)
            },
        },
    }
}

/// A macro as it is written.
#[verifier::opaque]
pub open spec fn macro_text(s: PS) -> Step<MacroM> {
    match s.ident() {
        (Err(e), s1) => (Err(e), s1),
        (Ok(name), s1) => if builtin_name(name) {
            (
                Err(s1.err_ghc(reserved_function_message(name), macro_call_site("35:15"@))),
                s1,
            )
        } else {
            match macro_args(s1, name) {
                (Err(e), s2) => (Err(e), s2),
                (Ok(args), s2) => match s2.need("="@) {
                    (Err(e), s3) => (Err(e), s3),
                    (Ok(_), s3) => match term(s3) {
                        (Err(e), s4) => (Err(e), s4),
                        (Ok(body), s4) => (Ok((MacroM { name, args, body })), s4),
                    },
                },
            }
        },
    }
}

/// The state in which the macro is known.
pub open spec fn knowing_macro(s: PS, m: MacroM) -> PS {
    PS {
        sig: SigM {
            macro_syms: s.sig.macro_syms.push(macro_sym(m.name, m.args.len() as int)),
            ..s.sig
        },
        ..s
    }
}

/// A macro whose name is free.
#[verifier::opaque]
pub open spec fn macro_decl(s: PS) -> Step<MacroM> {
    match macro_text(s) {
        (Err(e), s1) => (Err(e), s1),
        (Ok(m), s1) => if macro_taken(s1.sig, m.name) {
            macro_conflict(s1, m.name)
        } else {
            (Ok(m), knowing_macro(s1, m))
        },
    }
}

/// The macros behind `acc`.
pub open spec fn more_macros(s: PS, acc: Seq<MacroM>) -> Step<Seq<MacroM>>
    decreases s.rem(),
{
    match macro_decl(s) {
        (Err(e), s1) => (Err(e), s1),
        (Ok(m), s1) => {
            let (more, s2) = s1.punct(","@);
            if more && s.ahead(s1) {
                more_macros(s2, acc.push(m))
            } else {
                (Ok(acc.push(m)), item_ended(s2, ItemTail::Comma))
            }
        },
    }
}

/// One of two words that a block may start with, and the colon.
pub open spec fn block_start(s: PS, plural: Seq<char>, singular: Seq<char>) -> Step<()> {
    let (p, s1) = s.kw(plural);
    match (if p { (Ok::<(), ErrorM>(()), s1) } else { s1.need_kw(singular) }) {
        (Err(e), s2) => (Err(e), s2),
        (Ok(_), s2) => s2.need(":"@),
    }
}

/// The macros of a theory.
#[verifier::opaque]
pub open spec fn macros(s: PS) -> Step<Seq<MacroM>> {
    match block_start(s, "macros"@, "macro"@) {
        (Err(e), s1) => (Err(e), s1),
        (Ok(_), s1) => more_macros(s1, Seq::empty()),
    }
}

/// The messages other than those on what was expected.
pub open spec fn not_expected(ms: Seq<MessageM>) -> Seq<MessageM>
    decreases ms.len(),
{
    if ms.len() == 0 {
        Seq::empty()
    } else {
        let rest = not_expected(ms.drop_last());
        if ms.last() is Expect {
            rest
        } else {
            rest.push(ms.last())
        }
    }
}

/// The head of a predicate. Where nothing of it can be read, a declaration of
/// a predicate was expected.
#[verifier::opaque]
pub open spec fn predicate_head(s: PS) -> Step<FactM> {
    match fact(s) {
        (Ok(f), s1) => (Ok(f), s1),
        (Err(e), s1) => if s1.at == s.at {
            (
                Err(
                    ErrorM {
                        messages: not_expected(e.messages).push(
                            MessageM::Expect("predicate declaration"@),
                        ),
                        ..e
                    },
                ),
                s1,
            )
        } else {
            (Err(e), s1)
        },
    }
}

/// A predicate.
#[verifier::opaque]
pub open spec fn predicate(s: PS) -> Step<PredicateM> {
    match predicate_head(s) {
        (Err(e), s1) => (Err(e), s1),
        (Ok(f), s1) => match s1.need("<=>"@) {
            (Err(e), s2) => (Err(e), s2),
            (Ok(_), s2) => match formula(s2) {
                (Err(e), s3) => (Err(e), s3),
                (Ok(phi), s3) => (Ok((PredicateM { fact: f, formula: phi })), s3),
            },
        },
    }
}

/// The predicates behind `acc`.
pub open spec fn more_predicates(s: PS, acc: Seq<PredicateM>) -> Step<Seq<PredicateM>>
    decreases s.rem(),
{
    match step(s, predicate(s)) {
        (Err(e), s1) => (Err(e), s1),
        (Ok(p), s1) => {
            let (more, s2) = s1.punct(","@);
            if more {
                more_predicates(s2, acc.push(p))
            } else {
                (Ok(acc.push(p)), s2)
            }
        },
    }
}

/// What identifies the predicate of a fact.
pub open spec fn pred_key(f: FactM) -> PredKeyM {
    PredKeyM { persistent: f.persistent, name: f.name, arity: f.args.len() as int }
}

/// The first position from `i` on that has at least `offset` bytes before it.
pub open spec fn index_of(src: Seq<char>, offset: int, i: int) -> int
    decreases src.len() - i,
{
    if i < 0 || i >= src.len() || offset_at(src, i) >= offset {
        i
    } else {
        index_of(src, offset, i + 1)
    }
}

/// Whether there is nothing but space.
pub open spec fn all_space(s: Seq<char>) -> bool {
    forall|i: int| 0 <= i < s.len() ==> white_space(#[trigger] s[i])
}

/// Whether the variable that ended at `offset` was the last token before `at`.
pub open spec fn only_space_since(src: Seq<char>, offset: int, at: int) -> bool {
    let i = index_of(src, offset, 0);
    i <= at && all_space(uncommented(src.subrange(i, at), 0))
}

/// What the last term before `w` could have gone on with.
pub open spec fn pending_labels(w: PS) -> Seq<Seq<char>> {
    let carried = carry_labels(w, offset_at(w.src, w.at));
    if carried.len() > 0 {
        carried
    } else if w.h.var_dot && w.h.var_ident_end is Some && only_space_since(
        w.src,
        w.h.var_ident_end->0 as int,
        w.at,
    ) {
        seq!["\".\""@]
    } else {
        Seq::empty()
    }
}

/// The error for a predicate that was declared before.
#[verifier::opaque]
pub open spec fn predicate_again<T>(s: PS, f: FactM) -> Step<T> {
    let w = s.ws();
    (
        Err(
            w.error(
                seq![MessageM::SysUnExpect(w.token())] + expected(
                    pending_labels(w) + seq![
                        "\"&\""@,
                        "\"∧\""@,
                        "\"|\""@,
                        "\"∨\""@,
                        "\"==>\""@,
                        "\"⇒\""@,
                        "\"<=>\""@,
                        "\"⇔\""@,
                        "\",\""@,
                    ],
                ) + seq![MessageM::Message("duplicate predicate: "@ + fact_text(f))],
            ),
        ),
        w,
    )
}

pub open spec fn knowing_predicate(s: PS, k: PredKeyM) -> PS {
    PS {
        st: StateM {
            seen: SeenM { predicates: s.st.seen.predicates.push(k), ..s.st.seen },
            ..s.st
        },
        ..s
    }
}

/// Admits the predicates from `i` on, as long as they are new.
pub open spec fn admit_predicates(s: PS, ps: Seq<PredicateM>, i: int) -> Step<()>
    decreases ps.len() - i,
{
    if i < 0 || i >= ps.len() {
        (Ok(()), s)
    } else {
        let k = pred_key(ps[i].fact);
        if s.st.seen.predicates.contains(k) {
            predicate_again(s, ps[i].fact)
        } else {
            admit_predicates(knowing_predicate(s, k), ps, i + 1)
        }
    }
}

/// The predicates of a theory.
#[verifier::opaque]
pub open spec fn predicates(s: PS) -> Step<Seq<PredicateM>> {
    match block_start(s, "predicates"@, "predicate"@) {
        (Err(e), s1) => (Err(e), s1),
        (Ok(_), s1) => match more_predicates(s1, Seq::empty()) {
            (Err(e), s2) => (Err(e), s2),
            (Ok(ps), s2) => match admit_predicates(s2, ps, 0) {
                (Err(e), s3) => (Err(e), s3),
                (Ok(_), s3) => (Ok(ps), s3),
            },
        },
    }
}

fn call_site(site: &str) -> (r: String)
    ensures
        r@ == macro_call_site(site@),
{
    let mut r = "src/Theory/Text/Parser/Macro.hs:".to_string();
    r.push_str(site);
    r.push_str(
        " in tamarin-prover-theory-1.13.0-8wixYaxm5uHCGl2uEzaKzP:Theory.Text.Parser.Macro",
    );
    r
}

fn has_duplicate_macro_arg(args: &Vec<VarSpec>) -> (r: bool)
    ensures
        r == repeats(args.deep_view()),
{
    let ghost m = args.deep_view();
    let mut j: usize = 0;
    while j < args.len()
        invariant
            j <= args@.len(),
            m == args.deep_view(),
            forall|a: int, b: int| 0 <= a < b < j ==> !same_arg(#[trigger] m[a], #[trigger] m[b]),
        decreases args@.len() - j,
    {
        let mut i: usize = 0;
        while i < j
            invariant
                i <= j < args@.len(),
                m == args.deep_view(),
                forall|a: int| 0 <= a < i ==> !same_arg(#[trigger] m[a], m[j as int]),
            decreases j - i,
        {
            assert(m[i as int] == args@[i as int].deep_view());
            assert(m[j as int] == args@[j as int].deep_view());
            if same(&args[i].name, &args[j].name) && args[i].idx == args[j].idx && args[i].sort
                == args[j].sort {
                return true;
            }
            i = i + 1;
        }
        j = j + 1;
    }
    false
}

fn drop_expected(ms: &Vec<Message>) -> (r: Vec<Message>)
    ensures
        r.deep_view() == not_expected(ms.deep_view()),
{
    let mut r = no_items::<Message>();
    let mut i: usize = 0;
    assert(ms.deep_view().take(0) =~= Seq::<MessageM>::empty());
    while i < ms.len()
        invariant
            i <= ms@.len(),
            r.deep_view() == not_expected(ms.deep_view().take(i as int)),
        decreases ms@.len() - i,
    {
        match &ms[i] {
            Message::Expect(_) => {},
            Message::SysUnExpect(t) => {
                put(&mut r, Message::SysUnExpect(t.clone()));
            },
            Message::UnExpect(t) => {
                put(&mut r, Message::UnExpect(t.clone()));
            },
            Message::Message(t) => {
                put(&mut r, Message::Message(t.clone()));
            },
        }
        i = i + 1;
        proof {
            let t = ms.deep_view().take(i as int);
            assert(t.drop_last() =~= ms.deep_view().take(i - 1));
            assert(t.last() == ms@[i - 1].deep_view());
        }
    }
    assert(ms.deep_view().take(i as int) =~= ms.deep_view());
    r
}

fn is_all_space(s: &str) -> (r: bool)
    ensures
        r == all_space(s@),
{
    let v = chars_of(s);
    let mut i: usize = 0;
    while i < v.len()
        invariant
            i <= v@.len(),
            v@ == s@,
            forall|j: int| 0 <= j < i ==> white_space(#[trigger] s@[j]),
        decreases v@.len() - i,
    {
        if !v[i].is_whitespace() {
            return false;
        }
        i = i + 1;
    }
    true
}

fn has_key(keys: &Vec<PredKey>, f: &Fact) -> (r: bool)
    ensures
        r == keys.deep_view().contains(pred_key(f.deep_view())),
{
    let mut i: usize = 0;
    while i < keys.len()
        invariant
            i <= keys@.len(),
            forall|j: int| 0 <= j < i ==> keys.deep_view()[j] != pred_key(f.deep_view()),
        decreases keys@.len() - i,
    {
        let k = &keys[i];
        assert(keys.deep_view()[i as int] == k.deep_view());
        if k.persistent == f.persistent && k.arity == f.args.len() && same(&k.name, &f.name) {
            return true;
        }
        i = i + 1;
    }
    false
}

impl Parser {
    fn equation(&mut self) -> (r: Result<Equation, ParseError>)
        requires
            old(self).wf(),
        ensures
            final(self).wf(),
            (outcome(r), final(self)@) == equation(old(self)@),
            old(self)@.fwd(final(self)@),
    {
        proof {
            reveal(equation);
        }
        let lhs = self.equation_term()?;
        if !self.try_punct("=") {
            return Err(self.err_expect_after_term(labels1("\"=\"")));
        }
        let rhs = self.equation_term()?;
        Ok(Equation { lhs, rhs })
    }

    fn convergence(&mut self) -> (r: Result<bool, ParseError>)
        requires
            old(self).wf(),
        ensures
            final(self).wf(),
            (outcome(r), final(self)@) == convergent(old(self)@),
            old(self)@.past(final(self)@),
    {
        proof {
            reveal(convergent);
        }
        if !self.try_punct("[") {
            return Ok(false);
        }
        self.require_kw("convergent")?;
        self.require_punct("]")?;
        Ok(true)
    }

    /// The equations of a theory.
    #[verifier::spinoff_prover]
    pub fn equations(&mut self) -> (r: Result<(bool, Vec<Equation>), ParseError>)
        requires
            old(self).wf(),
        ensures
            final(self).wf(),
            (outcome(r), final(self)@) == equations(old(self)@),
            old(self)@.fwd(final(self)@),
            r is Ok ==> old(self)@.at < final(self)@.at,
    {
        proof {
            reveal(equations);
        }
        self.require_kw("equations")?;
        let c = self.convergence()?;
        self.require_punct(":")?;
        let ghost start = self@;
        let mut eqs = no_items::<Equation>();
        loop
            invariant
                self.wf(),
                old(self)@.past(start),
                old(self)@.at < start.at,
                start.fwd(self@),
                more_equations(self@, eqs.deep_view()) == more_equations(start, Seq::empty()),
                equations(old(self)@) == (match more_equations(start, Seq::empty()) {
                    (Err(e), s4) => (Err(e), s4),
                    (Ok(x), s4) => (Ok((c, x)), s4),
                }),
            decreases self@.rem(),
        {
            let x = self.equation()?;
            put(&mut eqs, x);
            if !self.try_punct(",") {
                self.set_item_hangover(ItemTail::Comma);
                return Ok((c, eqs));
            }
        }
    }

    fn macro_name_conflicts(&self, name: &str) -> (r: bool)
        ensures
            r == macro_taken(self@.sig, name@),
    {
        let all = theory_noeq_syms(
            self.sig.enable_dh,
            self.sig.enable_bp,
            self.sig.enable_xor,
            self.sig.enable_nat,
        );
        has_sym(&self.sig.fun_syms, name) || has_text(&self.sig.ac_fun_syms, name) || has_sym(
            &self.sig.macro_syms,
            name,
        ) || has_sym(&all, name)
    }

    fn macro_conflict_error(&mut self, name: &str) -> (e: ParseError)
        requires
            old(self).wf(),
        ensures
            final(self).wf(),
            (Err::<MacroM, ErrorM>(e.deep_view()), final(self)@) == macro_conflict::<MacroM>(
                old(self)@,
                name@,
            ),
            old(self)@.past(final(self)@),
    {
        proof {
            reveal(macro_conflict);
        }
        self.skip_ws();
        let mut v = one_item(Message::SysUnExpect(self.unexpected_token()));
        let mut m = "Conflicting name for macro ".to_string();
        m.push_str(name);
        let ghost text = m@;
        put(&mut v, Message::Message(m));
        assert(v.deep_view() =~= seq![
            MessageM::SysUnExpect(self@.token()),
            MessageM::Message(text),
        ]);
        let mut labels = no_items::<String>();
        if self.h.var_dot {
            put(&mut labels, "\".\"".to_string());
        }
        assert(labels.deep_view() =~= (if self.h.var_dot {
            seq!["\".\""@]
        } else {
            Seq::empty()
        }));
        put_all(&mut labels, quote_backwards(&self.sig.ac_fun_syms));
        put_all(&mut labels, operators(&self.sig));
        put_all(&mut v, expect_messages(labels));
        self.error_here(v)
    }

    fn macro_arguments(&mut self, name: &str) -> (r: Result<Vec<VarSpec>, ParseError>)
        requires
            old(self).wf(),
        ensures
            final(self).wf(),
            (outcome(r), final(self)@) == macro_args(old(self)@, name@),
            old(self)@.fwd(final(self)@),
    {
        proof {
            reveal(macro_args);
        }
        self.require_punct("(")?;
        let args = self.sep_end_vars(")")?;
        if has_duplicate_macro_arg(&args) {
            let mut m = quote(name);
            m.push_str(" have two arguments with the same name.");
            return Err(self.err_ghc(m, call_site("38:15")));
        }
        Ok(args)
    }

    fn macro_text(&mut self) -> (r: Result<Macro, ParseError>)
        requires
            old(self).wf(),
        ensures
            final(self).wf(),
            (outcome(r), final(self)@) == macro_text(old(self)@),
            old(self)@.fwd(final(self)@),
    {
        proof {
            reveal(macro_text);
        }
        let name = self.ident()?;
        if is_builtin_name(&name) {
            let m = crate::terms::reserved_function_text(&name);
            return Err(self.err_ghc(m, call_site("35:15")));
        }
        let args = self.macro_arguments(&name)?;
        self.require_punct("=")?;
        let body = self.term()?;
        Ok(Macro { name, args, body })
    }

    fn macro_decl(&mut self) -> (r: Result<Macro, ParseError>)
        requires
            old(self).wf(),
        ensures
            final(self).wf(),
            (outcome(r), final(self)@) == macro_decl(old(self)@),
            old(self)@.extends(final(self)@),
    {
        proof {
            reveal(macro_decl);
            reveal(crate::order::orderly);
        }
        let m = self.macro_text()?;
        if self.macro_name_conflicts(&m.name) {
            return Err(self.macro_conflict_error(&m.name));
        }
        let opts = FunOptions {
            arity: m.args.len(),
            private: true,
            destructor: true,
            ndc: false,
            ndc_diff: false,
        };
        put(&mut self.sig.macro_syms, FunSym { name: m.name.clone(), opts });
        Ok(m)
    }

    fn start_block(&mut self, plural: &str, singular: &str) -> (r: Result<(), ParseError>)
        requires
            old(self).wf(),
        ensures
            final(self).wf(),
            (outcome(r), final(self)@) == block_start(old(self)@, plural@, singular@),
            old(self)@.past(final(self)@),
            r is Ok ==> old(self)@.at < final(self)@.at,
    {
        if !self.try_kw(plural) {
            self.require_kw(singular)?;
        }
        self.require_punct(":")
    }

    /// The macros of a theory.
    #[verifier::spinoff_prover]
    pub fn macros(&mut self) -> (r: Result<Vec<Macro>, ParseError>)
        requires
            old(self).wf(),
        ensures
            final(self).wf(),
            (outcome(r), final(self)@) == macros(old(self)@),
            old(self)@.extends(final(self)@),
            r is Ok ==> old(self)@.at < final(self)@.at,
    {
        proof {
            reveal(macros);
        }
        self.start_block("macros", "macro")?;
        let mut ms = no_items::<Macro>();
        loop
            invariant
                self.wf(),
                old(self)@.extends(self@),
                old(self)@.at < self@.at,
                more_macros(self@, ms.deep_view()) == macros(old(self)@),
            decreases self@.rem(),
        {
            let m = self.macro_decl()?;
            put(&mut ms, m);
            if !self.try_punct(",") {
                self.set_item_hangover(ItemTail::Comma);
                return Ok(ms);
            }
        }
    }

    fn predicate_head(&mut self) -> (r: Result<Fact, ParseError>)
        requires
            old(self).wf(),
        ensures
            final(self).wf(),
            (outcome(r), final(self)@) == predicate_head(old(self)@),
            old(self)@.fwd(final(self)@),
    {
        proof {
            reveal(predicate_head);
        }
        let start = self.save();
        match self.fact() {
            Ok(f) => Ok(f),
            Err(e) => {
                let mut e = e;
                if self.save().at == start.at {
                    let mut ms = drop_expected(&e.messages);
                    put(&mut ms, Message::Expect("predicate declaration".to_string()));
                    e.messages = ms;
                }
                Err(e)
            },
        }
    }

    fn predicate(&mut self) -> (r: Result<Predicate, ParseError>)
        requires
            old(self).wf(),
        ensures
            final(self).wf(),
            (outcome(r), final(self)@) == predicate(old(self)@),
            old(self)@.fwd(final(self)@),
    {
        proof {
            reveal(predicate);
        }
        let f = self.predicate_head()?;
        self.require_punct("<=>")?;
        let phi = self.formula()?;
        Ok(Predicate { fact: f, formula: phi })
    }

    fn space_since(&self, offset: usize) -> (r: bool)
        requires
            self.wf(),
        ensures
            r == only_space_since(self@.src, offset as int, self@.at),
    {
        let mut i: usize = 0;
        let mut o: usize = 0;
        while i < self.lx.src.len() && o < offset
            invariant
                self.wf(),
                i <= self@.src.len(),
                o == offset_at(self@.src, i as int),
                index_of(self@.src, offset as int, i as int) == index_of(
                    self@.src,
                    offset as int,
                    0,
                ),
            decreases self@.src.len() - i,
        {
            proof {
                crate::tokens::lemma_position_bounds(self@.src, i + 1);
            }
            o = o + crate::text::utf8_width(self.lx.src[i]);
            i = i + 1;
        }
        let at: usize = self.save().at;
        if i > at {
            return false;
        }
        is_all_space(&uncomment(&self.lx.src, i, at))
    }

    fn pending_label_list(&self) -> (v: Vec<String>)
        requires
            self.wf(),
        ensures
            v.deep_view() == pending_labels(self@),
    {
        let off = self.offset();
        let v = self.term_carry_labels(off);
        if v.len() > 0 || !self.h.var_dot {
            assert(v.deep_view().len() == 0 ==> v.deep_view() =~= Seq::empty());
            return v;
        }
        match self.h.var_ident_end {
            Some(e) => {
                if self.space_since(e) {
                    return labels1("\".\"");
                }
            },
            None => {},
        }
        no_items::<String>()
    }

    #[verifier::spinoff_prover]
    fn predicate_dup_fail(&mut self, f: &Fact) -> (e: ParseError)
        requires
            old(self).wf(),
        ensures
            final(self).wf(),
            (Err::<(), ErrorM>(e.deep_view()), final(self)@) == predicate_again::<()>(
                old(self)@,
                f.deep_view(),
            ),
            old(self)@.past(final(self)@),
    {
        proof {
            reveal(predicate_again);
        }
        self.skip_ws();
        let mut v = one_item(Message::SysUnExpect(self.unexpected_token()));
        let mut labels = self.pending_label_list();
        let ghost pending = labels.deep_view();
        put(&mut labels, "\"&\"".to_string());
        put(&mut labels, "\"∧\"".to_string());
        put(&mut labels, "\"|\"".to_string());
        put(&mut labels, "\"∨\"".to_string());
        put(&mut labels, "\"==>\"".to_string());
        put(&mut labels, "\"⇒\"".to_string());
        put(&mut labels, "\"<=>\"".to_string());
        put(&mut labels, "\"⇔\"".to_string());
        put(&mut labels, "\",\"".to_string());
        assert(labels.deep_view() =~= pending + seq![
            "\"&\""@,
            "\"∧\""@,
            "\"|\""@,
            "\"∨\""@,
            "\"==>\""@,
            "\"⇒\""@,
            "\"<=>\""@,
            "\"⇔\""@,
            "\",\""@,
        ]);
        let ghost all = labels.deep_view();
        put_all(&mut v, expect_messages(labels));
        let mut m = "duplicate predicate: ".to_string();
        m.push_str(&pred_fact_text(f));
        let ghost text = m@;
        put(&mut v, Message::Message(m));
        assert(v.deep_view() =~= seq![MessageM::SysUnExpect(self@.token())] + expected(all) + seq![
            MessageM::Message(text),
        ]);
        self.error_here(v)
    }

    #[verifier::spinoff_prover]
    fn admit_predicates(&mut self, ps: &Vec<Predicate>) -> (r: Result<(), ParseError>)
        requires
            old(self).wf(),
        ensures
            final(self).wf(),
            (outcome(r), final(self)@) == admit_predicates(old(self)@, ps.deep_view(), 0),
            old(self)@.within(final(self)@),
    {
        let mut i: usize = 0;
        while i < ps.len()
            invariant
                self.wf(),
                i <= ps@.len(),
                old(self)@.within(self@),
                admit_predicates(self@, ps.deep_view(), i as int) == admit_predicates(
                    old(self)@,
                    ps.deep_view(),
                    0,
                ),
            decreases ps@.len() - i,
        {
            assert(ps.deep_view()[i as int] == ps@[i as int].deep_view());
            let f = &ps[i].fact;
            if has_key(&self.st.seen.predicates, f) {
                proof {
                    reveal(predicate_again);
                }
                return Err(self.predicate_dup_fail(f));
            }
            let ghost before = self@;
            put(
                &mut self.st.seen.predicates,
                PredKey { persistent: f.persistent, name: f.name.clone(), arity: f.args.len() },
            );
            assert(self@ == knowing_predicate(before, pred_key(f.deep_view())));
            i = i + 1;
        }
        Ok(())
    }

    /// The predicates of a theory.
    #[verifier::spinoff_prover]
    pub fn predicates(&mut self) -> (r: Result<Vec<Predicate>, ParseError>)
        requires
            old(self).wf(),
        ensures
            final(self).wf(),
            (outcome(r), final(self)@) == predicates(old(self)@),
            old(self)@.within(final(self)@),
            r matches Ok(ps) ==> follows(
                old(self)@,
                ItemM::Predicates(ps.deep_view()),
                final(self)@,
            ),
            r is Ok ==> old(self)@.at < final(self)@.at,
    {
        proof {
            reveal(predicates);
        }
        self.start_block("predicates", "predicate")?;
        let ps = self.predicate_list()?;
        let ghost read = self@;
        self.admit_predicates(&ps)?;
        proof {
            let keys = keys_of(ps.deep_view());
            lemma_admitted(read, ps.deep_view(), 0);
            assert(keys.subrange(0, ps@.len() as int) =~= keys);
            reveal(fits);
            reveal(noted);
        }
        Ok(ps)
    }

    fn predicate_list(&mut self) -> (r: Result<Vec<Predicate>, ParseError>)
        requires
            old(self).wf(),
        ensures
            final(self).wf(),
            (outcome(r), final(self)@) == more_predicates(old(self)@, Seq::empty()),
            old(self)@.fwd(final(self)@),
    {
        let mut ps = no_items::<Predicate>();
        loop
            invariant
                self.wf(),
                old(self)@.fwd(self@),
                more_predicates(self@, ps.deep_view()) == more_predicates(
                    old(self)@,
                    Seq::empty(),
                ),
            decreases self@.rem(),
        {
            let p = self.predicate()?;
            put(&mut ps, p);
            if !self.try_punct(",") {
                return Ok(ps);
            }
        }
    }
}

} // verus!
