//! The items of a theory.

use crate::ast::{
    CaseTestM, DiffLemmaM, EquationM, FunctionDeclM, ItemM, MacroM, PredicateM, ProcessDefM,
    ProcessM, RestrictionM, TacticM, TheoryItem,
};
use crate::basics::fail_item;
use crate::definitions::{equations, macros, predicates};
use crate::error::{outcome, ParseError};
use crate::functions::{builtins, functions};
use crate::lemmas::{case_test, diff_lemma_item, legacy_axiom, lemma_item, restriction};
use crate::model::put;
use crate::names::{fits, follows, noted};
use crate::processes::{equiv_lemma, export_item, process_def, toplevel_process};
use crate::rules::{rule, rule_guard};
use crate::state::{group_steps, Hangs, Parser, StateM, Step, PS};
use crate::tactics::{heuristic, options, tactic};
use crate::text::same;
use crate::tokens::{alpha_end, formal_comment_at};
use crate::values::copy_text_opt;
use vstd::prelude::*;

verus! {

broadcast use {group_steps, crate::tokens::group_lexer, crate::ast::group_models};

/// The step with what it read put into an item.
pub open spec fn as_item<A>(r: Step<A>, f: spec_fn(A) -> ItemM) -> Step<ItemM> {
    match r {
        (Ok(a), s) => (Ok(f(a)), s),
        (Err(e), s) => (Err(e), s),
    }
}

/// A rule: one of the intruder where it is written modulo AC, and else one of
/// the protocol, which must be new.
#[verifier::opaque]
pub open spec fn rule_item(s: PS) -> Step<ItemM> {
    match rule(s) {
        (Err(e), s1) => (Err(e), s1),
        (Ok(r), s1) => if r.modulo == Some("AC"@) {
            (Ok(ItemM::IntrRule(r)), s1)
        } else {
            match rule_guard(s1, r) {
                (Err(e), s2) => (Err(e), s2),
                (Ok(_), s2) => (Ok(ItemM::Rule(r)), s2),
            }
        },
    }
}

/// The directive behind the `#` at the position.
pub open spec fn directive(s: PS) -> Option<Seq<char>> {
    if s.peek() == Some('#') {
        Some(s.src.subrange(s.at + 1, alpha_end(s.src, s.at + 1)))
    } else {
        None
    }
}

/// Behind the directive at the position.
pub open spec fn behind_directive(s: PS) -> PS {
    s.to(alpha_end(s.src, s.at + 1))
}

/// The state in which the flag is set.
pub open spec fn flagged(s: PS, flag: Seq<char>) -> PS {
    PS { st: StateM { flags: s.st.flags.push(flag), ..s.st }, ..s }
}

/// A directive that is an item of its own.
#[verifier::opaque]
pub open spec fn directive_item(s: PS) -> Step<Option<ItemM>> {
    match directive(s) {
        None => (Ok(None), s),
        Some(d) => {
            let s1 = behind_directive(s);
            if d == "define"@ {
                match s1.ws().ident() {
                    (Err(e), s2) => (Err(e), s2),
                    (Ok(id), s2) => (Ok(Some(ItemM::Define(id))), flagged(s2, id)),
                }
            } else if d == "include"@ {
                match s1.ws().need_literal() {
                    (Err(e), s2) => (Err(e), s2),
                    (Ok(path), s2) => (Ok(Some(ItemM::Include(path))), s2),
                }
            } else if d == "endif"@ || d == "else"@ {
                (Ok(None), s)
            } else {
                (Err(s1.err("unknown preprocessor directive `#"@ + d + "`"@)), s1)
            }
        },
    }
}

/// An item of the signature or of the settings, if one starts here.
#[verifier::opaque]
pub open spec fn setting_item(s: PS) -> Option<Step<ItemM>> {
    if s.at_kw("builtins"@) {
        Some(as_item(builtins(s), |v: Seq<Seq<char>>| ItemM::Builtins(v)))
    } else if s.at_kw("options"@) {
        Some(as_item(options(s), |v: Seq<Seq<char>>| ItemM::Options(v)))
    } else if s.at_kw("functions"@) || s.at_kw("function"@) {
        Some(as_item(functions(s), |v: Seq<FunctionDeclM>| ItemM::Functions(v)))
    } else if s.at_kw("equations"@) {
        Some(
            as_item(
                equations(s),
                |v: (bool, Seq<EquationM>)| ItemM::Equations { convergent: v.0, eqs: v.1 },
            ),
        )
    } else if s.at_kw("macros"@) || s.at_kw("macro"@) {
        Some(as_item(macros(s), |v: Seq<MacroM>| ItemM::Macros(v)))
    } else if s.at_kw("predicates"@) || s.at_kw("predicate"@) {
        Some(as_item(predicates(s), |v: Seq<PredicateM>| ItemM::Predicates(v)))
    } else if s.at_kw("heuristic"@) {
        Some(
            as_item(
                heuristic(s),
                |raw: Seq<char>| ItemM::Heuristic { raw, source_file: s.place.source_file },
            ),
        )
    } else if s.at_kw("tactic"@) {
        Some(as_item(tactic(s), |t: TacticM| ItemM::Tactic(t)))
    } else {
        None
    }
}

/// A restriction, a rule, a lemma or a test, if one starts here.
#[verifier::opaque]
pub open spec fn claim_item(s: PS) -> Option<Step<ItemM>> {
    if s.at_kw("restriction"@) {
        Some(
            as_item(restriction(s, "restriction"@), |r: RestrictionM| ItemM::Restriction(r)),
        )
    } else if s.at_kw("axiom"@) {
        Some(as_item(legacy_axiom(s), |r: RestrictionM| ItemM::LegacyAxiom(r)))
    } else if s.at_kw("rule"@) {
        Some(rule_item(s))
    } else if s.at_kw("lemma"@) {
        Some(lemma_item(s))
    } else if s.at_kw("diffLemma"@) {
        Some(as_item(diff_lemma_item(s), |l: DiffLemmaM| ItemM::DiffLemma(l)))
    } else if s.at_kw("test"@) {
        Some(as_item(case_test(s), |t: CaseTestM| ItemM::CaseTest(t)))
    } else {
        None
    }
}

/// An item about processes, if one starts here.
#[verifier::opaque]
pub open spec fn process_item(s: PS) -> Option<Step<ItemM>> {
    if s.at_kw("equivLemma"@) {
        Some(equiv_lemma(s, false))
    } else if s.at_kw("diffEquivLemma"@) {
        Some(equiv_lemma(s, true))
    } else if s.at_kw("export"@) {
        Some(export_item(s))
    } else if s.at_kw("process"@) {
        Some(as_item(toplevel_process(s), |p: ProcessM| ItemM::TopLevelProcess(p)))
    } else if s.at_kw("let"@) {
        Some(as_item(process_def(s), |d: ProcessDefM| ItemM::ProcessDef(d)))
    } else {
        None
    }
}

/// The item that starts with the word at the position.
#[verifier::opaque]
pub open spec fn word_item(s: PS) -> Option<Step<ItemM>> {
    match setting_item(s) {
        Some(r) => Some(r),
        None => match claim_item(s) {
            Some(r) => Some(r),
            None => process_item(s),
        },
    }
}

/// An item. What the item before it left behind shows only in the error that
/// no item starts here.
#[verifier::opaque]
pub open spec fn item(s: PS) -> Step<ItemM> {
    let w = s.ws();
    let c = PS { h: Hangs { item: None, ..w.h }, ..w };
    match directive_item(c) {
        (Err(e), s1) => (Err(e), s1),
        (Ok(Some(x)), s1) => (Ok(x), s1),
        (Ok(None), _) => match formal_comment_at(c.src, c.at) {
            Some((header, body, e)) => (
                Ok(ItemM::FormalComment { header, body }),
                c.to(e),
            ),
            None => match word_item(c) {
                Some(r) => r,
                None => fail_item(w),
            },
        },
    }
}

impl Parser {
    /// The directive behind the `#` at the position.
    pub fn peek_directive(&mut self) -> (r: Option<String>)
        requires
            old(self).wf(),
        ensures
            final(self).wf(),
            final(self)@ == old(self)@,
            r.deep_view() == directive(old(self)@),
    {
        let save = self.save();
        if self.peek() != Some('#') {
            return None;
        }
        self.bump();
        let name = self.lx.ascii_alpha_run();
        self.restore(save);
        Some(name)
    }

    #[verifier::spinoff_prover]
    fn rule_item(&mut self) -> (r: Result<TheoryItem, ParseError>)
        requires
            old(self).wf(),
        ensures
            final(self).wf(),
            (outcome(r), final(self)@) == rule_item(old(self)@),
            old(self)@.within(final(self)@),
            r matches Ok(x) ==> follows(old(self)@, x.deep_view(), final(self)@),
            r is Ok ==> old(self)@.at < final(self)@.at,
    {
        proof {
            reveal(rule_item);
            reveal(fits);
            reveal(noted);
        }
        let r = self.parse_rule()?;
        let intruder = match &r.modulo {
            Some(m) => same(m, "AC"),
            None => false,
        };
        if intruder {
            return Ok(TheoryItem::IntrRule(r));
        }
        self.guard_duplicate_rule(&r)?;
        Ok(TheoryItem::Rule(r))
    }

    #[verifier::spinoff_prover]
    fn try_preproc(&mut self) -> (r: Result<Option<TheoryItem>, ParseError>)
        requires
            old(self).wf(),
        ensures
            final(self).wf(),
            (outcome(r), final(self)@) == directive_item(old(self)@),
            old(self)@.within(final(self)@),
            r matches Ok(Some(x)) ==> follows(old(self)@, x.deep_view(), final(self)@),
            r matches Ok(Some(_)) ==> old(self)@.at < final(self)@.at,
            r matches Ok(None) ==> final(self)@ == old(self)@,
    {
        proof {
            reveal(directive_item);
            reveal(fits);
            reveal(noted);
        }
        let save = self.save();
        if self.peek() != Some('#') {
            return Ok(None);
        }
        self.bump();
        let name = self.lx.ascii_alpha_run();
        if same(&name, "define") {
            self.skip_ws();
            let id = self.ident()?;
            put(&mut self.st.flags, id.clone());
            return Ok(Some(TheoryItem::Define(id)));
        }
        if same(&name, "include") {
            self.skip_ws();
            let path = self.string_literal()?;
            return Ok(Some(TheoryItem::Include(path)));
        }
        if same(&name, "endif") || same(&name, "else") {
            self.restore(save);
            return Ok(None);
        }
        let mut msg = "unknown preprocessor directive `#".to_string();
        msg.push_str(&name);
        msg.push_str("`");
        Err(self.err(&msg))
    }

    #[verifier::spinoff_prover]
    fn try_setting_item(&mut self) -> (r: Option<Result<TheoryItem, ParseError>>)
        requires
            old(self).wf(),
        ensures
            final(self).wf(),
            match setting_item(old(self)@) {
                Some(t) => r is Some && (outcome(r->0), final(self)@) == t,
                None => r is None && final(self)@ == old(self)@,
            },
            old(self)@.within(final(self)@),
            r matches Some(Ok(x)) ==> follows(old(self)@, x.deep_view(), final(self)@),
            r matches Some(Ok(_)) ==> old(self)@.at < final(self)@.at,
    {
        proof {
            reveal(setting_item);
            reveal(fits);
            reveal(noted);
        }
        if self.at_keyword("builtins") {
            return match self.builtins() {
                Ok(v) => Some(Ok(TheoryItem::Builtins(v))),
                Err(e) => Some(Err(e)),
            };
        }
        if self.at_keyword("options") {
            return match self.options() {
                Ok(v) => Some(Ok(TheoryItem::Options(v))),
                Err(e) => Some(Err(e)),
            };
        }
        if self.at_keyword("functions") || self.at_keyword("function") {
            return match self.functions() {
                Ok(v) => Some(Ok(TheoryItem::Functions(v))),
                Err(e) => Some(Err(e)),
            };
        }
        if self.at_keyword("equations") {
            return match self.equations() {
                Ok((convergent, eqs)) => Some(Ok(TheoryItem::Equations { convergent, eqs })),
                Err(e) => Some(Err(e)),
            };
        }
        if self.at_keyword("macros") || self.at_keyword("macro") {
            return match self.macros() {
                Ok(v) => Some(Ok(TheoryItem::Macros(v))),
                Err(e) => Some(Err(e)),
            };
        }
        if self.at_keyword("predicates") || self.at_keyword("predicate") {
            return match self.predicates() {
                Ok(v) => Some(Ok(TheoryItem::Predicates(v))),
                Err(e) => Some(Err(e)),
            };
        }
        if self.at_keyword("heuristic") {
            let source_file = copy_text_opt(&self.place.source_file);
            return match self.heuristic() {
                Ok(raw) => Some(Ok(TheoryItem::Heuristic { raw, source_file })),
                Err(e) => Some(Err(e)),
            };
        }
        if self.at_keyword("tactic") {
            return match self.tactic() {
                Ok(t) => Some(Ok(TheoryItem::Tactic(t))),
                Err(e) => Some(Err(e)),
            };
        }
        None
    }

    #[verifier::spinoff_prover]
    fn try_claim_item(&mut self) -> (r: Option<Result<TheoryItem, ParseError>>)
        requires
            old(self).wf(),
        ensures
            final(self).wf(),
            match claim_item(old(self)@) {
                Some(t) => r is Some && (outcome(r->0), final(self)@) == t,
                None => r is None && final(self)@ == old(self)@,
            },
            old(self)@.within(final(self)@),
            r matches Some(Ok(x)) ==> follows(old(self)@, x.deep_view(), final(self)@),
            r matches Some(Ok(_)) ==> old(self)@.at < final(self)@.at,
    {
        proof {
            reveal(claim_item);
            reveal(fits);
            reveal(noted);
        }
        if self.at_keyword("restriction") {
            return match self.restriction("restriction") {
                Ok(r) => Some(Ok(TheoryItem::Restriction(r))),
                Err(e) => Some(Err(e)),
            };
        }
        if self.at_keyword("axiom") {
            return match self.legacy_axiom() {
                Ok(r) => Some(Ok(TheoryItem::LegacyAxiom(r))),
                Err(e) => Some(Err(e)),
            };
        }
        if self.at_keyword("rule") {
            return Some(self.rule_item());
        }
        if self.at_keyword("lemma") {
            return Some(self.lemma_item());
        }
        if self.at_keyword("diffLemma") {
            return match self.diff_lemma_item() {
                Ok(l) => Some(Ok(TheoryItem::DiffLemma(l))),
                Err(e) => Some(Err(e)),
            };
        }
        if self.at_keyword("test") {
            return match self.case_test_item() {
                Ok(t) => Some(Ok(TheoryItem::CaseTest(t))),
                Err(e) => Some(Err(e)),
            };
        }
        None
    }

    #[verifier::spinoff_prover]
    fn try_process_item(&mut self) -> (r: Option<Result<TheoryItem, ParseError>>)
        requires
            old(self).wf(),
        ensures
            final(self).wf(),
            match process_item(old(self)@) {
                Some(t) => r is Some && (outcome(r->0), final(self)@) == t,
                None => r is None && final(self)@ == old(self)@,
            },
            old(self)@.within(final(self)@),
            r matches Some(Ok(x)) ==> follows(old(self)@, x.deep_view(), final(self)@),
            r matches Some(Ok(_)) ==> old(self)@.at < final(self)@.at,
    {
        proof {
            reveal(process_item);
            reveal(equiv_lemma);
            reveal(export_item);
            reveal(fits);
            reveal(noted);
        }
        if self.at_keyword("equivLemma") {
            return Some(self.equiv_lemma(false));
        }
        if self.at_keyword("diffEquivLemma") {
            return Some(self.equiv_lemma(true));
        }
        if self.at_keyword("export") {
            return Some(self.export_item());
        }
        if self.at_keyword("process") {
            return match self.toplevel_process() {
                Ok(p) => Some(Ok(TheoryItem::TopLevelProcess(p))),
                Err(e) => Some(Err(e)),
            };
        }
        if self.at_keyword("let") {
            return match self.process_def() {
                Ok(d) => Some(Ok(TheoryItem::ProcessDef(d))),
                Err(e) => Some(Err(e)),
            };
        }
        None
    }

    #[verifier::spinoff_prover]
    fn try_word_item(&mut self) -> (r: Option<Result<TheoryItem, ParseError>>)
        requires
            old(self).wf(),
        ensures
            final(self).wf(),
            match word_item(old(self)@) {
                Some(t) => r is Some && (outcome(r->0), final(self)@) == t,
                None => r is None && final(self)@ == old(self)@,
            },
            old(self)@.within(final(self)@),
            r matches Some(Ok(x)) ==> follows(old(self)@, x.deep_view(), final(self)@),
            r matches Some(Ok(_)) ==> old(self)@.at < final(self)@.at,
    {
        proof {
            reveal(word_item);
        }
        if let Some(r) = self.try_setting_item() {
            return Some(r);
        }
        if let Some(r) = self.try_claim_item() {
            return Some(r);
        }
        self.try_process_item()
    }

    /// An item.
    #[verifier::spinoff_prover]
    pub fn theory_item(&mut self) -> (r: Result<TheoryItem, ParseError>)
        requires
            old(self).wf(),
        ensures
            final(self).wf(),
            (outcome(r), final(self)@) == item(old(self)@),
            old(self)@.within(final(self)@),
            r matches Ok(x) ==> follows(old(self)@, x.deep_view(), final(self)@),
            r is Ok ==> old(self)@.at < final(self)@.at,
    {
        proof {
            reveal(item);
            reveal(fits);
            reveal(noted);
        }
        self.skip_ws();
        let before = self.h.item;
        self.h.item = None;
        if let Some(x) = self.try_preproc()? {
            return Ok(x);
        }
        let ghost c = self@;
        if let Some((header, body)) = self.lx.formal_comment() {
            proof {
                crate::tokens::lemma_comment_rest(
                    c.src,
                    crate::tokens::letters_end(c.src, crate::tokens::ws_end(c.src, c.at)) + 2,
                    Seq::empty(),
                );
            }
            return Ok(TheoryItem::FormalComment { header, body });
        }
        if let Some(r) = self.try_word_item() {
            return r;
        }
        self.h.item = before;
        Err(self.item_position_error())
    }
}

} // verus!
