//! The conditions of `#ifdef`.

use crate::ast::{FlagFormula, FlagM};
use crate::error::{outcome, ParseError};
use crate::state::{group_steps, step, Parser, Step, PS};
use crate::text::has_text;
use vstd::prelude::*;

verus! {

broadcast use {group_steps, crate::tokens::group_lexer};

pub open spec fn flag_disjuncts(s: PS) -> Step<FlagM>
    decreases s.rem(), 4int,
{
    match step(s, flag_conjuncts(s)) {
        (Err(e), s1) => (Err(e), s1),
        (Ok(a), s1) => more_flag_disjuncts(s1, a),
    }
}

pub open spec fn more_flag_disjuncts(s: PS, a: FlagM) -> Step<FlagM>
    decreases s.rem(), 0int,
{
    let (more, s1) = s.either("|"@, "∨"@);
    if more {
        match step(s1, flag_conjuncts(s1)) {
            (Err(e), s2) => (Err(e), s2),
            (Ok(b), s2) => more_flag_disjuncts(s2, FlagM::Or(Box::new(a), Box::new(b))),
        }
    } else {
        (Ok(a), s1)
    }
}

pub open spec fn flag_conjuncts(s: PS) -> Step<FlagM>
    decreases s.rem(), 3int,
{
    match step(s, flag_negation(s)) {
        (Err(e), s1) => (Err(e), s1),
        (Ok(a), s1) => more_flag_conjuncts(s1, a),
    }
}

pub open spec fn more_flag_conjuncts(s: PS, a: FlagM) -> Step<FlagM>
    decreases s.rem(), 0int,
{
    let (more, s1) = s.either("&"@, "∧"@);
    if more {
        match step(s1, flag_negation(s1)) {
            (Err(e), s2) => (Err(e), s2),
            (Ok(b), s2) => more_flag_conjuncts(s2, FlagM::And(Box::new(a), Box::new(b))),
        }
    } else {
        (Ok(a), s1)
    }
}

pub open spec fn flag_negation(s: PS) -> Step<FlagM>
    decreases s.rem(), 2int,
{
    let (neg, s1) = s.word_or("not"@, "¬"@);
    if neg {
        match flag_atom(s1) {
            (Err(e), s2) => (Err(e), s2),
            (Ok(a), s2) => (Ok(FlagM::Not(Box::new(a))), s2),
        }
    } else {
        flag_atom(s1)
    }
}

pub open spec fn flag_atom(s: PS) -> Step<FlagM>
    decreases s.rem(), 1int,
{
    let (open, s1) = s.punct("("@);
    if open {
        match flag_disjuncts(s1) {
            (Err(e), s2) => (Err(e), s2),
            (Ok(a), s2) => match s2.need(")"@) {
                (Err(e), s3) => (Err(e), s3),
                (Ok(_), s3) => (Ok(a), s3),
            },
        }
    } else {
        match s1.ident() {
            (Err(e), s2) => (Err(e), s2),
            (Ok(id), s2) => (Ok(FlagM::Atom(id)), s2),
        }
    }
}

/// A condition over flags.
#[verifier::opaque]
pub open spec fn flag_formula(s: PS) -> Step<FlagM> {
    flag_disjuncts(s)
}

/// Whether the condition holds where the flags in `flags` are set.
pub open spec fn holds(f: FlagM, flags: Seq<Seq<char>>) -> bool
    decreases f,
{
    match f {
        FlagM::Atom(s) => flags.contains(s),
        FlagM::Not(a) => !holds(*a, flags),
        FlagM::And(a, b) => holds(*a, flags) && holds(*b, flags),
        FlagM::Or(a, b) => holds(*a, flags) || holds(*b, flags),
    }
}

/// Whether the condition holds where the flags in `flags` are set.
pub fn eval_flagformula(f: &FlagFormula, flags: &Vec<String>) -> (r: bool)
    ensures
        r == holds(f.deep_view(), flags.deep_view()),
    decreases f,
{
    match f {
        FlagFormula::Atom(s) => has_text(flags, s),
        FlagFormula::Not(a) => !eval_flagformula(a, flags),
        FlagFormula::And(a, b) => eval_flagformula(a, flags) && eval_flagformula(b, flags),
        FlagFormula::Or(a, b) => eval_flagformula(a, flags) || eval_flagformula(b, flags),
    }
}

impl Parser {
    fn flag_disjuncts(&mut self) -> (r: Result<FlagFormula, ParseError>)
        requires
            old(self).wf(),
        ensures
            final(self).wf(),
            (outcome(r), final(self)@) == flag_disjuncts(old(self)@),
            old(self)@.past(final(self)@),
        decreases old(self)@.rem(), 4int,
    {
        let mut a = self.flag_conjuncts()?;
        loop
            invariant
                self.wf(),
                old(self)@.past(self@),
                more_flag_disjuncts(self@, a.deep_view()) == flag_disjuncts(old(self)@),
            decreases self@.rem(),
        {
            if !self.try_either("|", "∨") {
                return Ok(a);
            }
            let b = self.flag_conjuncts()?;
            a = FlagFormula::Or(Box::new(a), Box::new(b));
        }
    }

    fn flag_conjuncts(&mut self) -> (r: Result<FlagFormula, ParseError>)
        requires
            old(self).wf(),
        ensures
            final(self).wf(),
            (outcome(r), final(self)@) == flag_conjuncts(old(self)@),
            old(self)@.past(final(self)@),
        decreases old(self)@.rem(), 3int,
    {
        let mut a = self.flag_negation()?;
        loop
            invariant
                self.wf(),
                old(self)@.past(self@),
                more_flag_conjuncts(self@, a.deep_view()) == flag_conjuncts(old(self)@),
            decreases self@.rem(),
        {
            if !self.try_either("&", "∧") {
                return Ok(a);
            }
            let b = self.flag_negation()?;
            a = FlagFormula::And(Box::new(a), Box::new(b));
        }
    }

    fn flag_negation(&mut self) -> (r: Result<FlagFormula, ParseError>)
        requires
            old(self).wf(),
        ensures
            final(self).wf(),
            (outcome(r), final(self)@) == flag_negation(old(self)@),
            old(self)@.past(final(self)@),
        decreases old(self)@.rem(), 2int,
    {
        if self.try_word_or("not", "¬") {
            let a = self.flag_atom()?;
            Ok(FlagFormula::Not(Box::new(a)))
        } else {
            self.flag_atom()
        }
    }

    fn flag_atom(&mut self) -> (r: Result<FlagFormula, ParseError>)
        requires
            old(self).wf(),
        ensures
            final(self).wf(),
            (outcome(r), final(self)@) == flag_atom(old(self)@),
            old(self)@.past(final(self)@),
        decreases old(self)@.rem(), 1int,
    {
        if self.try_punct("(") {
            let a = self.flag_disjuncts()?;
            self.require_punct(")")?;
            return Ok(a);
        }
        let id = self.ident()?;
        Ok(FlagFormula::Atom(id))
    }

    /// A condition over flags.
    pub fn flag_formula(&mut self) -> (r: Result<FlagFormula, ParseError>)
        requires
            old(self).wf(),
        ensures
            final(self).wf(),
            (outcome(r), final(self)@) == flag_formula(old(self)@),
            old(self)@.past(final(self)@),
    {
        proof {
            reveal(flag_formula);
        }
        self.flag_disjuncts()
    }
}

} // verus!
