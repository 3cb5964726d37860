//! The actions of processes.

use crate::ast::{ActionM, CombM, Condition, ConditionM, ProcessComb, SapicAction, Term, TermM};
use crate::error::{outcome, ErrorM, ParseError};
use crate::facts::fact;
use crate::formulas::formula;
use crate::model::{one_item, put, put_all};
use crate::rules::{arrow, bracket_facts};
use crate::state::{PS, group_steps, Mode, Parser, Step};
use crate::terms::term;
use crate::vars::variable;
use vstd::prelude::*;

verus! {

broadcast use {group_steps, crate::tokens::group_lexer, crate::ast::group_models};

/// The state in which `=x` is a term.
pub open spec fn patterned(s: PS) -> PS {
    PS { mode: Mode { pat: true, ..s.mode }, ..s }
}

/// The result `r` of a step that was made in another mode than that of `s`.
pub open spec fn back_in<T>(s: PS, r: Step<T>) -> Step<T> {
    (r.0, PS { mode: s.mode, ..r.1 })
}

/// A term in which `=x` stands for the value of `x`.
#[verifier::opaque]
pub open spec fn pattern(s: PS) -> Step<TermM> {
    back_in(s, term(patterned(s)))
}

/// Of two errors the one that was raised further on, or both where they were
/// raised at the same place. An exception in the second stays alone.
pub open spec fn merged(a: ErrorM, b: ErrorM) -> ErrorM {
    if b.ghc is Some || b.offset > a.offset {
        b
    } else if b.offset < a.offset {
        a
    } else {
        ErrorM { messages: a.messages + b.messages, ..a }
    }
}

/// A message without a channel, behind the opening parenthesis.
#[verifier::opaque]
pub open spec fn in_message(s: PS) -> Step<TermM> {
    match pattern(s) {
        (Err(e), s1) => (Err(e), s1),
        (Ok(t), s1) => match s1.need(")"@) {
            (Err(e), s2) => (Err(e), s2),
            (Ok(_), s2) => (Ok(t), s2),
        },
    }
}

/// A channel and a message, behind the opening parenthesis.
#[verifier::opaque]
pub open spec fn in_channel(s: PS) -> Step<(Option<TermM>, TermM)> {
    match term(s) {
        (Err(e), s1) => (Err(e), s1),
        (Ok(c), s1) => match s1.need(","@) {
            (Err(e), s2) => (Err(e), s2),
            (Ok(_), s2) => match in_message(s2) {
                (Err(e), s3) => (Err(e), s3),
                (Ok(t), s3) => (Ok((Some(c), t)), s3),
            },
        },
    }
}

/// What `in` reads.
#[verifier::opaque]
pub open spec fn in_args(s: PS) -> Step<(Option<TermM>, TermM)> {
    match s.need("("@) {
        (Err(e), s1) => (Err(e), s1),
        (Ok(_), s1) => match in_message(s1) {
            (Ok(t), s2) => (Ok((None, t)), s2),
            (Err(e1), s2) => if e1.ghc is Some {
                (Err(e1), s2)
            } else {
                match in_channel(s2.to(s1.at)) {
                    (Ok(r), s3) => (Ok(r), s3),
                    (Err(e2), s3) => (Err(merged(e1, e2)), s3),
                }
            },
        },
    }
}

/// What `out` writes.
#[verifier::opaque]
pub open spec fn out_args(s: PS) -> Step<(Option<TermM>, TermM)> {
    match s.need("("@) {
        (Err(e), s1) => (Err(e), s1),
        (Ok(_), s1) => match term(s1) {
            (Err(e), s2) => (Err(e), s2),
            (Ok(a), s2) => {
                let (two, s3) = s2.punct(","@);
                if two {
                    match term(s3) {
                        (Err(e), s4) => (Err(e), s4),
                        (Ok(b), s4) => match s4.need(")"@) {
                            (Err(e), s5) => (Err(e), s5),
                            (Ok(_), s5) => (Ok((Some(a), b)), s5),
                        },
                    }
                } else {
                    match s3.need(")"@) {
                        (Err(e), s4) => (Err(e), s4),
                        (Ok(_), s4) => (Ok((None, a)), s4),
                    }
                }
            },
        },
    }
}

/// A rule inside a process, or none where no arrow follows the facts; the
/// parse is then back at `from`.
#[verifier::opaque]
pub open spec fn embedded_rule(s: PS, from: int) -> Step<Option<ActionM>> {
    match bracket_facts(s) {
        (Err(e), s1) => (Err(e), s1),
        (Ok(prems), s1) => if !s1.at_punct("-->"@) && !s1.at_punct("--["@) {
            (Ok(None), s1.to(from))
        } else {
            match arrow(s1) {
                (Err(e), s2) => (Err(e), s2),
                (Ok((acts, restrictions)), s2) => match bracket_facts(s2) {
                    (Err(e), s3) => (Err(e), s3),
                    (Ok(concs), s3) => (
                        Ok(Some(ActionM::Msr { prems, acts, concs, restrictions })),
                        s3,
                    ),
                },
            }
        },
    }
}

/// What an action with one term does.
#[verifier::opaque]
pub open spec fn insert_action(s: PS) -> Step<Option<ActionM>> {
    match term(s) {
        (Err(e), s1) => (Err(e), s1),
        (Ok(a), s1) => match s1.need(","@) {
            (Err(e), s2) => (Err(e), s2),
            (Ok(_), s2) => match term(s2) {
                (Err(e), s3) => (Err(e), s3),
                (Ok(b), s3) => (Ok(Some(ActionM::Insert(a, b))), s3),
            },
        },
    }
}

/// An action, if one comes next.
#[verifier::opaque]
pub open spec fn sapic_action(s: PS) -> Step<Option<ActionM>> {
    let w = s.ws();
    let (new_w, s1) = w.kw("new"@);
    let (insert, s2) = w.kw("insert"@);
    let (delete, s3) = w.kw("delete"@);
    let (read, s4) = w.kw("in"@);
    let (write, s5) = w.kw("out"@);
    let (lock, s6) = w.kw("lock"@);
    let (unlock, s7) = w.kw("unlock"@);
    let (event, s8) = w.kw("event"@);
    if new_w {
        match variable(s1) {
            (Err(e), t) => (Err(e), t),
            (Ok(v), t) => (Ok(Some(ActionM::New(v))), t),
        }
    } else if insert {
        insert_action(s2)
    } else if delete {
        match term(s3) {
            (Err(e), t) => (Err(e), t),
            (Ok(a), t) => (Ok(Some(ActionM::Delete(a))), t),
        }
    } else if read {
        match in_args(s4) {
            (Err(e), t) => (Err(e), t),
            (Ok((chan, msg)), t) => (Ok(Some(ActionM::ChIn { chan, msg })), t),
        }
    } else if write {
        match out_args(s5) {
            (Err(e), t) => (Err(e), t),
            (Ok((chan, msg)), t) => (Ok(Some(ActionM::ChOut { chan, msg })), t),
        }
    } else if lock {
        match term(s6) {
            (Err(e), t) => (Err(e), t),
            (Ok(a), t) => (Ok(Some(ActionM::Lock(a))), t),
        }
    } else if unlock {
        match term(s7) {
            (Err(e), t) => (Err(e), t),
            (Ok(a), t) => (Ok(Some(ActionM::Unlock(a))), t),
        }
    } else if event {
        match fact(s8) {
            (Err(e), t) => (Err(e), t),
            (Ok(f), t) => (Ok(Some(ActionM::Event(f))), t),
        }
    } else if w.peek() == Some('[') {
        back_in(w, embedded_rule(patterned(w), w.at))
    } else {
        (Ok(None), w)
    }
}

/// The head of a `lookup`.
#[verifier::opaque]
pub open spec fn lookup_head(s: PS) -> Step<CombM> {
    match term(s) {
        (Err(e), s1) => (Err(e), s1),
        (Ok(t), s1) => match s1.need_kw("as"@) {
            (Err(e), s2) => (Err(e), s2),
            (Ok(_), s2) => match variable(s2) {
                (Err(e), s3) => (Err(e), s3),
                (Ok(v), s3) => match s3.need_kw("in"@) {
                    (Err(e), s4) => (Err(e), s4),
                    (Ok(_), s4) => (Ok(CombM::Lookup(t, v)), s4),
                },
            },
        },
    }
}

/// An equality of two terms.
#[verifier::opaque]
pub open spec fn equal_terms(s: PS) -> Step<ConditionM> {
    match term(s) {
        (Err(e), s1) => (Err(e), s1),
        (Ok(a), s1) => match s1.need("="@) {
            (Err(e), s2) => (Err(e), s2),
            (Ok(_), s2) => match term(s2) {
                (Err(e), s3) => (Err(e), s3),
                (Ok(b), s3) => (Ok(ConditionM::Eq(a, b)), s3),
            },
        },
    }
}

/// A condition: an equality of terms where one can be read, else a formula.
#[verifier::opaque]
pub open spec fn condition(s: PS) -> Step<ConditionM> {
    match equal_terms(s) {
        (Ok(c), s1) => (Ok(c), s1),
        (Err(_), s1) => match formula(s1.to(s.at)) {
            (Err(e), s2) => (Err(e), s2),
            (Ok(f), s2) => (Ok(ConditionM::Formula(f)), s2),
        },
    }
}

/// The head of an `if`.
#[verifier::opaque]
pub open spec fn cond_head(s: PS) -> Step<CombM> {
    match condition(s) {
        (Err(e), s1) => (Err(e), s1),
        (Ok(c), s1) => match s1.need_kw("then"@) {
            (Err(e), s2) => (Err(e), s2),
            (Ok(_), s2) => (Ok(CombM::Cond(c)), s2),
        },
    }
}

/// A definition of a process `let`: a pattern and a term.
#[verifier::opaque]
pub open spec fn let_definition(s: PS) -> Step<(TermM, TermM)> {
    match pattern(s) {
        (Err(e), s1) => (Err(e), s1),
        (Ok(a), s1) => match s1.need("="@) {
            (Err(e), s2) => (Err(e), s2),
            (Ok(_), s2) => match term(s2) {
                (Err(e), s3) => (Err(e), s3),
                (Ok(b), s3) => (Ok((a, b)), s3),
            },
        },
    }
}

/// As many definitions as can be read behind `acc`, with commas or without.
pub open spec fn more_definitions(s: PS, acc: Seq<(TermM, TermM)>) -> (Seq<(TermM, TermM)>, PS)
    decreases s.rem(),
{
    let w = s.punct(","@).1.ws();
    if w.at_kw("in"@) {
        (acc, w)
    } else {
        match let_definition(w) {
            (Ok(d), s1) => if w.fwd(s1) && w.at < s1.at {
                more_definitions(s1, acc.push(d))
            } else {
                (acc, w)
            },
            (Err(_), s1) => (acc, s1.to(w.at)),
        }
    }
}

/// The definitions of a process `let`, and the word `in`.
#[verifier::opaque]
pub open spec fn let_head(s: PS) -> Step<Seq<(TermM, TermM)>> {
    match let_definition(s) {
        (Err(e), s1) => (Err(e), s1),
        (Ok(d), s1) => {
            let (bs, s2) = more_definitions(s1, seq![d]);
            match s2.need_kw("in"@) {
                (Err(e), s3) => (Err(e), s3),
                (Ok(_), s3) => (Ok(bs), s3),
            }
        },
    }
}

/// Of two errors the one that was raised further on, or both.
pub fn merge_alt_errors(e1: ParseError, e2: ParseError) -> (e: ParseError)
    ensures
        e.deep_view() == merged(e1.deep_view(), e2.deep_view()),
{
    if e2.ghc_error.is_some() || e2.offset > e1.offset {
        return e2;
    }
    if e2.offset < e1.offset {
        return e1;
    }
    let mut e = e1;
    put_all(&mut e.messages, e2.messages);
    e
}

impl Parser {
    fn pattern_term(&mut self) -> (r: Result<Term, ParseError>)
        requires
            old(self).wf(),
        ensures
            final(self).wf(),
            (outcome(r), final(self)@) == pattern(old(self)@),
            old(self)@.fwd(final(self)@),
    {
        proof {
            reveal(pattern);
        }
        let saved = self.mode.pat;
        self.mode.pat = true;
        let r = self.term();
        self.mode.pat = saved;
        r
    }

    fn in_message(&mut self) -> (r: Result<Term, ParseError>)
        requires
            old(self).wf(),
        ensures
            final(self).wf(),
            (outcome(r), final(self)@) == in_message(old(self)@),
            old(self)@.fwd(final(self)@),
    {
        proof {
            reveal(in_message);
        }
        let t = self.pattern_term()?;
        self.require_punct(")")?;
        Ok(t)
    }

    fn in_channel(&mut self) -> (r: Result<(Option<Term>, Term), ParseError>)
        requires
            old(self).wf(),
        ensures
            final(self).wf(),
            (outcome(r), final(self)@) == in_channel(old(self)@),
            old(self)@.fwd(final(self)@),
    {
        proof {
            reveal(in_channel);
        }
        let c = self.term()?;
        self.require_punct(",")?;
        let t = self.in_message()?;
        Ok((Some(c), t))
    }

    fn parse_in_chan_msg(&mut self) -> (r: Result<(Option<Term>, Term), ParseError>)
        requires
            old(self).wf(),
        ensures
            final(self).wf(),
            (outcome(r), final(self)@) == in_args(old(self)@),
            old(self)@.fwd(final(self)@),
    {
        proof {
            reveal(in_args);
        }
        self.require_punct("(")?;
        let start = self.save();
        match self.in_message() {
            Ok(t) => Ok((None, t)),
            Err(e1) => {
                if e1.ghc_error.is_some() {
                    return Err(e1);
                }
                self.restore(start);
                match self.in_channel() {
                    Ok(r) => Ok(r),
                    Err(e2) => Err(merge_alt_errors(e1, e2)),
                }
            },
        }
    }

    fn parse_chan_msg(&mut self) -> (r: Result<(Option<Term>, Term), ParseError>)
        requires
            old(self).wf(),
        ensures
            final(self).wf(),
            (outcome(r), final(self)@) == out_args(old(self)@),
            old(self)@.fwd(final(self)@),
    {
        proof {
            reveal(out_args);
        }
        self.require_punct("(")?;
        let a = self.term()?;
        if self.try_punct(",") {
            let b = self.term()?;
            self.require_punct(")")?;
            Ok((Some(a), b))
        } else {
            self.require_punct(")")?;
            Ok((None, a))
        }
    }

    #[verifier::spinoff_prover]
    fn embedded_msr(&mut self, from: crate::lexer::Pos) -> (r: Result<
        Option<SapicAction>,
        ParseError,
    >)
        requires
            old(self).wf(),
            crate::lexer::position_of(old(self)@.src, from),
            from.at == old(self)@.at,
        ensures
            final(self).wf(),
            (outcome(r), final(self)@) == embedded_rule(old(self)@, from.at as int),
            old(self)@.fwd(final(self)@),
    {
        proof {
            reveal(embedded_rule);
        }
        let prems = self.fact_list()?;
        if !self.peek_punct("-->") && !self.peek_punct("--[") {
            self.restore(from);
            return Ok(None);
        }
        let (acts, restrictions) = self.parse_actions_and_restrictions()?;
        let concs = self.fact_list()?;
        Ok(Some(SapicAction::Msr { prems, acts, concs, restrictions }))
    }

    fn insert_action(&mut self) -> (r: Result<Option<SapicAction>, ParseError>)
        requires
            old(self).wf(),
        ensures
            final(self).wf(),
            (outcome(r), final(self)@) == insert_action(old(self)@),
            old(self)@.fwd(final(self)@),
    {
        proof {
            reveal(insert_action);
        }
        let a = self.term()?;
        self.require_punct(",")?;
        let b = self.term()?;
        Ok(Some(SapicAction::Insert(a, b)))
    }

    /// An action, if one comes next.
    #[verifier::spinoff_prover]
    pub fn try_sapic_action(&mut self) -> (r: Result<Option<SapicAction>, ParseError>)
        requires
            old(self).wf(),
        ensures
            final(self).wf(),
            (outcome(r), final(self)@) == sapic_action(old(self)@),
            old(self)@.fwd(final(self)@),
    {
        proof {
            reveal(sapic_action);
        }
        self.skip_ws();
        let start = self.save();
        if self.try_kw("new") {
            let v = self.var_spec()?;
            return Ok(Some(SapicAction::New(v)));
        }
        if self.try_kw("insert") {
            return self.insert_action();
        }
        if self.try_kw("delete") {
            let t = self.term()?;
            return Ok(Some(SapicAction::Delete(t)));
        }
        if self.try_kw("in") {
            let (chan, msg) = self.parse_in_chan_msg()?;
            return Ok(Some(SapicAction::ChIn { chan, msg }));
        }
        if self.try_kw("out") {
            let (chan, msg) = self.parse_chan_msg()?;
            return Ok(Some(SapicAction::ChOut { chan, msg }));
        }
        if self.try_kw("lock") {
            let t = self.term()?;
            return Ok(Some(SapicAction::Lock(t)));
        }
        if self.try_kw("unlock") {
            let t = self.term()?;
            return Ok(Some(SapicAction::Unlock(t)));
        }
        if self.try_kw("event") {
            let f = self.fact()?;
            return Ok(Some(SapicAction::Event(f)));
        }
        if self.peek() == Some('[') {
            let saved = self.mode.pat;
            self.mode.pat = true;
            let r = self.embedded_msr(start);
            self.mode.pat = saved;
            return r;
        }
        Ok(None)
    }

    /// The head of a `lookup`.
    pub fn lookup_head(&mut self) -> (r: Result<ProcessComb, ParseError>)
        requires
            old(self).wf(),
        ensures
            final(self).wf(),
            (outcome(r), final(self)@) == lookup_head(old(self)@),
            old(self)@.fwd(final(self)@),
    {
        proof {
            reveal(lookup_head);
        }
        let t = self.term()?;
        self.require_kw("as")?;
        let v = self.var_spec()?;
        self.require_kw("in")?;
        Ok(ProcessComb::Lookup(t, v))
    }

    fn equal_terms(&mut self) -> (r: Result<Condition, ParseError>)
        requires
            old(self).wf(),
        ensures
            final(self).wf(),
            (outcome(r), final(self)@) == equal_terms(old(self)@),
            old(self)@.fwd(final(self)@),
    {
        proof {
            reveal(equal_terms);
        }
        let a = self.term()?;
        self.require_punct("=")?;
        let b = self.term()?;
        Ok(Condition::Eq(a, b))
    }

    fn condition(&mut self) -> (r: Result<Condition, ParseError>)
        requires
            old(self).wf(),
        ensures
            final(self).wf(),
            (outcome(r), final(self)@) == condition(old(self)@),
            old(self)@.fwd(final(self)@),
    {
        proof {
            reveal(condition);
        }
        let start = self.save();
        match self.equal_terms() {
            Ok(c) => Ok(c),
            Err(_) => {
                self.restore(start);
                let f = self.formula()?;
                Ok(Condition::Formula(f))
            },
        }
    }

    /// The head of an `if`.
    pub fn cond_head(&mut self) -> (r: Result<ProcessComb, ParseError>)
        requires
            old(self).wf(),
        ensures
            final(self).wf(),
            (outcome(r), final(self)@) == cond_head(old(self)@),
            old(self)@.fwd(final(self)@),
    {
        proof {
            reveal(cond_head);
        }
        let c = self.condition()?;
        self.require_kw("then")?;
        Ok(ProcessComb::Cond(c))
    }

    fn let_definition(&mut self) -> (r: Result<(Term, Term), ParseError>)
        requires
            old(self).wf(),
        ensures
            final(self).wf(),
            (outcome(r), final(self)@) == let_definition(old(self)@),
            old(self)@.fwd(final(self)@),
            r is Ok ==> old(self)@.at < final(self)@.at,
    {
        proof {
            reveal(let_definition);
        }
        let a = self.pattern_term()?;
        self.require_punct("=")?;
        let b = self.term()?;
        Ok((a, b))
    }

    fn more_let_definitions(&mut self, first: (Term, Term)) -> (r: Vec<(Term, Term)>)
        requires
            old(self).wf(),
        ensures
            final(self).wf(),
            (r.deep_view(), final(self)@) == more_definitions(
                old(self)@,
                seq![first.deep_view()],
            ),
            old(self)@.fwd(final(self)@),
    {
        let mut bs = one_item(first);
        loop
            invariant
                self.wf(),
                old(self)@.fwd(self@),
                more_definitions(self@, bs.deep_view()) == more_definitions(
                    old(self)@,
                    seq![first.deep_view()],
                ),
            decreases self@.rem(),
        {
            self.try_punct(",");
            self.skip_ws();
            if self.at_keyword("in") {
                return bs;
            }
            let start = self.save();
            match self.let_definition() {
                Ok(b) => {
                    put(&mut bs, b);
                },
                Err(_) => {
                    self.restore(start);
                    return bs;
                },
            }
        }
    }

    /// The definitions of a process `let`, and the word `in`.
    pub fn let_head(&mut self) -> (r: Result<Vec<(Term, Term)>, ParseError>)
        requires
            old(self).wf(),
        ensures
            final(self).wf(),
            (outcome(r), final(self)@) == let_head(old(self)@),
            old(self)@.fwd(final(self)@),
    {
        proof {
            reveal(let_head);
        }
        let first = self.let_definition()?;
        let bs = self.more_let_definitions(first);
        self.require_kw("in")?;
        Ok(bs)
    }
}

} // verus!
