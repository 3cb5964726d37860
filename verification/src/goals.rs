//! The goals of stored proofs.

use crate::ast::{
    Fact, FactM, Formula, FormulaM, GoalM, GoalSpec, LSort, NodeIndex, NodeIndexM, Term, TermM,
    VarM, VarSpec,
};
use crate::error::{outcome, ParseError};
use crate::facts::fact;
use crate::formulas::formula;
use crate::model::{no_items, put};
use crate::state::{group_steps, step, Parser, Step, PS};
use crate::terms::term;
use crate::tokens::subscript_at;
use crate::vars::variable;
use vstd::prelude::*;

verus! {

broadcast use {group_steps, crate::tokens::group_lexer, crate::ast::group_models};

/// A point in time.
#[verifier::opaque]
pub open spec fn nodevar(s: PS) -> Step<VarM> {
    match variable(s) {
        (Err(e), s1) => (Err(e), s1),
        (Ok(v), s1) => if v.sort == LSort::Node || (v.sort == LSort::Msg && !s1.h.sort_suffix
            && v.typ is None) {
            (Ok(VarM { sort: LSort::Node, typ: None, ..v }), s1)
        } else {
            (
                Err(s1.to(s.at).err("expected a timepoint variable"@)),
                s1.to(s.at),
            )
        },
    }
}

/// The part of a goal `r` that settles which goal it is, or none where it is
/// not of that kind: the parse is then back at `s`.
pub open spec fn attempted<T>(s: PS, r: Step<T>) -> (Option<T>, PS) {
    match r {
        (Ok(x), s1) => (Some(x), s1),
        (Err(_), s1) => (None, s1.to(s.at)),
    }
}

#[verifier::opaque]
pub open spec fn subterm_head(s: PS) -> Step<TermM> {
    match term(s) {
        (Err(e), s1) => (Err(e), s1),
        (Ok(t), s1) => {
            let (ok, s2) = s1.either("<<"@, "⊏"@);
            if ok {
                (Ok(t), s2)
            } else {
                (Err(s2.err("expected `⊏`"@)), s2)
            }
        },
    }
}

/// Two terms of which the first is a subterm of the second.
#[verifier::opaque]
pub open spec fn subterm_goal(s: PS) -> Step<Option<GoalM>> {
    match attempted(s, subterm_head(s)) {
        (None, s1) => (Ok(None), s1),
        (Some(a), s1) => match term(s1) {
            (Err(e), s2) => (Err(e), s2),
            (Ok(b), s2) => (Ok(Some(GoalM::Subterm(a, b))), s2),
        },
    }
}

#[verifier::opaque]
pub open spec fn premise_head(s: PS) -> Step<(FactM, u64)> {
    match fact(s) {
        (Err(e), s1) => (Err(e), s1),
        (Ok(f), s1) => {
            let (ok, s2) = s1.ws().eat("▶"@);
            if ok {
                match subscript_at(s2.src, s2.at) {
                    Some((n, e)) => (Ok((f, n)), s2.to(e)),
                    None => (Err(s2.err("expected a subscript premise index"@)), s2),
                }
            } else {
                (Err(s2.err("expected `▶`"@)), s2)
            }
        },
    }
}

/// A premise of the rule at a point in time.
#[verifier::opaque]
pub open spec fn premise_goal(s: PS) -> Step<Option<GoalM>> {
    match attempted(s, premise_head(s)) {
        (None, s1) => (Ok(None), s1),
        (Some((f, index)), s1) => match nodevar(s1) {
            (Err(e), s2) => (Err(e), s2),
            (Ok(node), s2) => (
                Ok(Some(GoalM::Premise((NodeIndexM { node, index }), f))),
                s2,
            ),
        },
    }
}

#[verifier::opaque]
pub open spec fn action_head(s: PS) -> Step<FactM> {
    match fact(s) {
        (Err(e), s1) => (Err(e), s1),
        (Ok(f), s1) => {
            let (ok, s2) = s1.punct("@"@);
            if ok {
                (Ok(f), s2)
            } else {
                (Err(s2.err("expected `@`"@)), s2)
            }
        },
    }
}

/// An action at a point in time.
#[verifier::opaque]
pub open spec fn action_goal(s: PS) -> Step<Option<GoalM>> {
    match attempted(s, action_head(s)) {
        (None, s1) => (Ok(None), s1),
        (Some(f), s1) => match nodevar(s1) {
            (Err(e), s2) => (Err(e), s2),
            (Ok(v), s2) => (Ok(Some(GoalM::Action(v, f))), s2),
        },
    }
}

/// A point in time and an index.
#[verifier::opaque]
pub open spec fn node_index(s: PS) -> Step<NodeIndexM> {
    match s.need("("@) {
        (Err(e), s1) => (Err(e), s1),
        (Ok(_), s1) => match nodevar(s1) {
            (Err(e), s2) => (Err(e), s2),
            (Ok(node), s2) => match s2.need(","@) {
                (Err(e), s3) => (Err(e), s3),
                (Ok(_), s3) => match s3.natural() {
                    (None, s4) => (Err(s4.err("expected a node index"@)), s4),
                    (Some(index), s4) => match s4.need(")"@) {
                        (Err(e), s5) => (Err(e), s5),
                        (Ok(_), s5) => (Ok((NodeIndexM { node, index })), s5),
                    },
                },
            },
        },
    }
}

#[verifier::opaque]
pub open spec fn chain_head(s: PS) -> Step<NodeIndexM> {
    match node_index(s) {
        (Err(e), s1) => (Err(e), s1),
        (Ok(c), s1) => {
            let (ok, s2) = s1.punct("~~>"@);
            if ok {
                (Ok(c), s2)
            } else {
                (Err(s2.err("expected `~~>`"@)), s2)
            }
        },
    }
}

/// A conclusion and the premise that a chain leads to.
#[verifier::opaque]
pub open spec fn chain_goal(s: PS) -> Step<Option<GoalM>> {
    match attempted(s, chain_head(s)) {
        (None, s1) => (Ok(None), s1),
        (Some(c), s1) => match node_index(s1) {
            (Err(e), s2) => (Err(e), s2),
            (Ok(p), s2) => (Ok(Some(GoalM::Chain(c, p))), s2),
        },
    }
}

/// A case split of the equations.
#[verifier::opaque]
pub open spec fn split_goal(s: PS) -> Step<GoalM> {
    let (word, s1) = s.kw("splitEqs"@);
    if !word {
        (Err(s1.err("expected `splitEqs`"@)), s1)
    } else {
        match s1.need("("@) {
            (Err(e), s2) => (Err(e), s2),
            (Ok(_), s2) => match s2.natural() {
                (None, s3) => (Err(s3.err("expected a split id"@)), s3),
                (Some(n), s3) => match s3.need(")"@) {
                    (Err(e), s4) => (Err(e), s4),
                    (Ok(_), s4) => (Ok(GoalM::Split(n as i64)), s4),
                },
            },
        }
    }
}

/// The cases of a disjunction behind `acc`.
pub open spec fn more_alternatives(s: PS, acc: Seq<FormulaM>) -> Step<Seq<FormulaM>>
    decreases s.rem(),
{
    match step(s, formula(s)) {
        (Err(e), s1) => (Err(e), s1),
        (Ok(f), s1) => {
            let (more, s2) = s1.punct("\u{2225}"@);
            if more {
                more_alternatives(s2, acc.push(f))
            } else {
                (Ok(acc.push(f)), s2)
            }
        },
    }
}

/// A disjunction.
#[verifier::opaque]
pub open spec fn disj_goal(s: PS) -> Step<GoalM> {
    match more_alternatives(s, Seq::empty()) {
        (Err(e), s1) => (Err(e), s1),
        (Ok(fs), s1) => (Ok(GoalM::Disj(fs)), s1),
    }
}

/// What is left when the goal is none of the first four kinds.
#[verifier::opaque]
pub open spec fn split_or_disj(s: PS) -> Step<GoalM> {
    match attempted(s, split_goal(s)) {
        (Some(g), s1) => (Ok(g), s1),
        (None, s1) => disj_goal(s1),
    }
}

/// A goal.
#[verifier::opaque]
pub open spec fn goal(s: PS) -> Step<GoalM> {
    match subterm_goal(s) {
        (Err(e), s1) => (Err(e), s1),
        (Ok(Some(g)), s1) => (Ok(g), s1),
        (Ok(None), s1) => match premise_goal(s1) {
            (Err(e), s2) => (Err(e), s2),
            (Ok(Some(g)), s2) => (Ok(g), s2),
            (Ok(None), s2) => match action_goal(s2) {
                (Err(e), s3) => (Err(e), s3),
                (Ok(Some(g)), s3) => (Ok(g), s3),
                (Ok(None), s3) => match chain_goal(s3) {
                    (Err(e), s4) => (Err(e), s4),
                    (Ok(Some(g)), s4) => (Ok(g), s4),
                    (Ok(None), s4) => split_or_disj(s4),
                },
            },
        },
    }
}

/// A goal in parentheses. The white space behind the closing one is left.
#[verifier::opaque]
pub open spec fn parens_goal(s: PS) -> Step<GoalM> {
    match s.need("("@) {
        (Err(e), s1) => (Err(e), s1),
        (Ok(_), s1) => match goal(s1) {
            (Err(e), s2) => (Err(e), s2),
            (Ok(g), s2) => {
                let (ok, s3) = s2.ws().eat(")"@);
                if ok {
                    (Ok(g), s3)
                } else {
                    (Err(s3.err("expected `)` after the goal"@)), s3)
                }
            },
        },
    }
}

impl Parser {
    fn nodevar(&mut self) -> (r: Result<VarSpec, ParseError>)
        requires
            old(self).wf(),
        ensures
            final(self).wf(),
            (outcome(r), final(self)@) == nodevar(old(self)@),
            old(self)@.fwd(final(self)@),
    {
        proof {
            reveal(nodevar);
        }
        let start = self.save();
        let v = self.var_spec()?;
        if v.sort == LSort::Node || (v.sort == LSort::Msg && !self.h.sort_suffix
            && v.typ.is_none()) {
            return Ok(VarSpec { sort: LSort::Node, typ: None, ..v });
        }
        self.restore(start);
        Err(self.err("expected a timepoint variable"))
    }

    fn try_subterm_head(&mut self) -> (r: Result<Term, ParseError>)
        requires
            old(self).wf(),
        ensures
            final(self).wf(),
            (outcome(r), final(self)@) == subterm_head(old(self)@),
            old(self)@.fwd(final(self)@),
    {
        proof {
            reveal(subterm_head);
        }
        let t = self.term()?;
        if self.try_either("<<", "⊏") {
            Ok(t)
        } else {
            Err(self.err("expected `⊏`"))
        }
    }

    fn subterm_goal(&mut self) -> (r: Result<Option<GoalSpec>, ParseError>)
        requires
            old(self).wf(),
        ensures
            final(self).wf(),
            (outcome(r), final(self)@) == subterm_goal(old(self)@),
            old(self)@.fwd(final(self)@),
    {
        proof {
            reveal(subterm_goal);
        }
        let start = self.save();
        match self.try_subterm_head() {
            Ok(a) => {
                let b = self.term()?;
                Ok(Some(GoalSpec::Subterm(a, b)))
            },
            Err(_) => {
                self.restore(start);
                Ok(None)
            },
        }
    }

    fn try_premise_head(&mut self) -> (r: Result<(Fact, u64), ParseError>)
        requires
            old(self).wf(),
        ensures
            final(self).wf(),
            (outcome(r), final(self)@) == premise_head(old(self)@),
            old(self)@.fwd(final(self)@),
    {
        proof {
            reveal(premise_head);
        }
        let f = self.fact()?;
        self.skip_ws();
        if !self.eat_str("▶") {
            return Err(self.err("expected `▶`"));
        }
        match self.lx.natural_subscript() {
            Some(n) => Ok((f, n)),
            None => Err(self.err("expected a subscript premise index")),
        }
    }

    fn premise_goal(&mut self) -> (r: Result<Option<GoalSpec>, ParseError>)
        requires
            old(self).wf(),
        ensures
            final(self).wf(),
            (outcome(r), final(self)@) == premise_goal(old(self)@),
            old(self)@.fwd(final(self)@),
    {
        proof {
            reveal(premise_goal);
        }
        let start = self.save();
        match self.try_premise_head() {
            Ok((f, index)) => {
                let node = self.nodevar()?;
                Ok(Some(GoalSpec::Premise(NodeIndex { node, index }, f)))
            },
            Err(_) => {
                self.restore(start);
                Ok(None)
            },
        }
    }

    fn try_action_head(&mut self) -> (r: Result<Fact, ParseError>)
        requires
            old(self).wf(),
        ensures
            final(self).wf(),
            (outcome(r), final(self)@) == action_head(old(self)@),
            old(self)@.fwd(final(self)@),
    {
        proof {
            reveal(action_head);
        }
        let f = self.fact()?;
        if self.try_punct("@") {
            Ok(f)
        } else {
            Err(self.err("expected `@`"))
        }
    }

    fn action_goal(&mut self) -> (r: Result<Option<GoalSpec>, ParseError>)
        requires
            old(self).wf(),
        ensures
            final(self).wf(),
            (outcome(r), final(self)@) == action_goal(old(self)@),
            old(self)@.fwd(final(self)@),
    {
        proof {
            reveal(action_goal);
        }
        let start = self.save();
        match self.try_action_head() {
            Ok(f) => {
                let v = self.nodevar()?;
                Ok(Some(GoalSpec::Action(v, f)))
            },
            Err(_) => {
                self.restore(start);
                Ok(None)
            },
        }
    }

    #[verifier::spinoff_prover]
    fn node_idx_pair(&mut self) -> (r: Result<NodeIndex, ParseError>)
        requires
            old(self).wf(),
        ensures
            final(self).wf(),
            (outcome(r), final(self)@) == node_index(old(self)@),
            old(self)@.fwd(final(self)@),
    {
        proof {
            reveal(node_index);
        }
        self.require_punct("(")?;
        let node = self.nodevar()?;
        self.require_punct(",")?;
        let index = match self.natural() {
            Some(n) => n,
            None => {
                return Err(self.err("expected a node index"));
            },
        };
        self.require_punct(")")?;
        Ok(NodeIndex { node, index })
    }

    fn try_chain_head(&mut self) -> (r: Result<NodeIndex, ParseError>)
        requires
            old(self).wf(),
        ensures
            final(self).wf(),
            (outcome(r), final(self)@) == chain_head(old(self)@),
            old(self)@.fwd(final(self)@),
    {
        proof {
            reveal(chain_head);
        }
        let c = self.node_idx_pair()?;
        if self.try_punct("~~>") {
            Ok(c)
        } else {
            Err(self.err("expected `~~>`"))
        }
    }

    fn chain_goal(&mut self) -> (r: Result<Option<GoalSpec>, ParseError>)
        requires
            old(self).wf(),
        ensures
            final(self).wf(),
            (outcome(r), final(self)@) == chain_goal(old(self)@),
            old(self)@.fwd(final(self)@),
    {
        proof {
            reveal(chain_goal);
        }
        let start = self.save();
        match self.try_chain_head() {
            Ok(c) => {
                let p = self.node_idx_pair()?;
                Ok(Some(GoalSpec::Chain(c, p)))
            },
            Err(_) => {
                self.restore(start);
                Ok(None)
            },
        }
    }

    fn eq_split_goal(&mut self) -> (r: Result<GoalSpec, ParseError>)
        requires
            old(self).wf(),
        ensures
            final(self).wf(),
            (outcome(r), final(self)@) == split_goal(old(self)@),
            old(self)@.fwd(final(self)@),
    {
        proof {
            reveal(split_goal);
        }
        if !self.try_kw("splitEqs") {
            return Err(self.err("expected `splitEqs`"));
        }
        self.require_punct("(")?;
        let n = match self.natural() {
            Some(n) => n,
            None => {
                return Err(self.err("expected a split id"));
            },
        };
        self.require_punct(")")?;
        Ok(GoalSpec::Split(n as i64))
    }

    fn disj_split_goal(&mut self) -> (r: Result<GoalSpec, ParseError>)
        requires
            old(self).wf(),
        ensures
            final(self).wf(),
            (outcome(r), final(self)@) == disj_goal(old(self)@),
            old(self)@.fwd(final(self)@),
    {
        proof {
            reveal(disj_goal);
        }
        let mut alts = no_items::<Formula>();
        loop
            invariant
                self.wf(),
                old(self)@.fwd(self@),
                disj_goal(old(self)@) == (match more_alternatives(self@, alts.deep_view()) {
                    (Err(e), s1) => (Err(e), s1),
                    (Ok(fs), s1) => (Ok(GoalM::Disj(fs)), s1),
                }),
            decreases self@.rem(),
        {
            let f = self.formula()?;
            put(&mut alts, f);
            if !self.try_punct("\u{2225}") {
                return Ok(GoalSpec::Disj(alts));
            }
        }
    }

    fn split_or_disj_goal(&mut self) -> (r: Result<GoalSpec, ParseError>)
        requires
            old(self).wf(),
        ensures
            final(self).wf(),
            (outcome(r), final(self)@) == split_or_disj(old(self)@),
            old(self)@.fwd(final(self)@),
    {
        proof {
            reveal(split_or_disj);
        }
        let start = self.save();
        match self.eq_split_goal() {
            Ok(g) => Ok(g),
            Err(_) => {
                self.restore(start);
                self.disj_split_goal()
            },
        }
    }

    /// A goal.
    #[verifier::spinoff_prover]
    pub fn goal(&mut self) -> (r: Result<GoalSpec, ParseError>)
        requires
            old(self).wf(),
        ensures
            final(self).wf(),
            (outcome(r), final(self)@) == goal(old(self)@),
            old(self)@.fwd(final(self)@),
    {
        proof {
            reveal(goal);
        }
        match self.subterm_goal()? {
            Some(g) => {
                return Ok(g);
            },
            None => {},
        }
        match self.premise_goal()? {
            Some(g) => {
                return Ok(g);
            },
            None => {},
        }
        match self.action_goal()? {
            Some(g) => {
                return Ok(g);
            },
            None => {},
        }
        match self.chain_goal()? {
            Some(g) => {
                return Ok(g);
            },
            None => {},
        }
        self.split_or_disj_goal()
    }

    /// A goal in parentheses.
    pub fn parens_goal(&mut self) -> (r: Result<GoalSpec, ParseError>)
        requires
            old(self).wf(),
        ensures
            final(self).wf(),
            (outcome(r), final(self)@) == parens_goal(old(self)@),
            old(self)@.fwd(final(self)@),
    {
        proof {
            reveal(parens_goal);
        }
        self.require_punct("(")?;
        let g = self.goal()?;
        self.skip_ws();
        if !self.eat_str(")") {
            return Err(self.err("expected `)` after the goal"));
        }
        Ok(g)
    }
}

} // verus!
