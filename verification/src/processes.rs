//! Processes.

use crate::actions::{back_in, cond_head, let_head, lookup_head, sapic_action};
use crate::ast::{
    ActionM, CombM, ItemM, Process, ProcessComb, ProcessDef, ProcessDefM, ProcessM, SapicAction,
    Term, TermM, VarM, VarSpec,
};
use crate::error::{outcome, ParseError};
use crate::lists::var_list;
use crate::model::no_items;
use crate::state::{group_steps, step, Mode, Parser, SigM, Step, PS};
use crate::terms::{term, term_args};
use crate::tokens::export_at;
use crate::values::{copy_process, copy_term};
use vstd::prelude::*;

verus! {

broadcast use {group_steps, crate::tokens::group_lexer, crate::ast::group_models};

/// The state in which a colon behind a variable names a type.
pub open spec fn typed(s: PS) -> PS {
    PS { mode: Mode { sapic: true, ..s.mode }, ..s }
}

/// What joins the next process to those before it.
pub open spec fn joiner(s: PS) -> (Option<CombM>, PS) {
    let (double, s1) = s.ws().punct("||"@);
    if double {
        (Some(CombM::Parallel), s1)
    } else if s1.peek() == Some('|') && s1.peek_at(1) != Some('|') {
        (Some(CombM::Parallel), s1.bump().ws())
    } else {
        let (plus, s2) = s1.punct("+"@);
        if plus {
            (Some(CombM::Ndc), s2)
        } else {
            (None, s2)
        }
    }
}

#[verifier::opaque]
pub open spec fn joined(comb: CombM, p: ProcessM, q: ProcessM) -> ProcessM {
    ProcessM::Comb { comb, left: Box::new(p), right: Box::new(q) }
}

#[verifier::opaque]
pub open spec fn replicated(p: ProcessM) -> ProcessM {
    ProcessM::Replication(Box::new(p))
}

#[verifier::opaque]
pub open spec fn acting(a: ActionM, p: ProcessM) -> ProcessM {
    ProcessM::Action { action: a, body: Box::new(p) }
}

#[verifier::opaque]
pub open spec fn located(p: ProcessM, t: TermM) -> ProcessM {
    ProcessM::AtAnnotation(Box::new(p), t)
}

/// The definitions around `p`, the first one outermost; `q` is what each
/// leads to where its pattern does not match.
pub open spec fn defined(bs: Seq<(TermM, TermM)>, p: ProcessM, q: ProcessM) -> ProcessM
    decreases bs.len(),
{
    if bs.len() == 0 {
        p
    } else {
        let (pat, value) = bs.last();
        defined(bs.drop_last(), joined(CombM::Let { pat, value }, p, q), q)
    }
}

/// A call of a named process.
#[verifier::opaque]
pub open spec fn call(s: PS) -> Step<ProcessM> {
    match s.name() {
        (None, s1) => (Err(s1.err("expected process"@)), s1),
        (Some(name), s1) => {
            let (open, s2) = s1.punct("("@);
            if open {
                match term_args(s2) {
                    (Err(e), s3) => (Err(e), s3),
                    (Ok(args), s3) => (Ok(ProcessM::Call { name, args }), s3),
                }
            } else {
                (Ok(ProcessM::Call { name, args: Seq::empty() }), s2)
            }
        },
    }
}

/// A process.
pub open spec fn process(s: PS) -> Step<ProcessM>
    decreases s.rem(), 12int,
{
    back_in(s, process_body(typed(s)))
}

/// Processes joined from the left.
pub open spec fn process_body(s: PS) -> Step<ProcessM>
    decreases s.rem(), 10int,
{
    match step(s, action_process(s)) {
        (Err(e), s1) => (Err(e), s1),
        (Ok(p), s1) => more_processes(s1, p),
    }
}

pub open spec fn more_processes(s: PS, p: ProcessM) -> Step<ProcessM>
    decreases s.rem(), 0int,
{
    match joiner(s) {
        (None, s1) => (Ok(p), s1),
        (Some(c), s1) => match step(s1, action_process(s1)) {
            (Err(e), s2) => (Err(e), s2),
            (Ok(q), s2) => more_processes(s2, joined(c, p, q)),
        },
    }
}

/// A process that is not joined to another.
pub open spec fn action_process(s: PS) -> Step<ProcessM>
    decreases s.rem(), 8int,
{
    let (bang, s1) = s.ws().punct("!"@);
    if bang {
        match process(s1) {
            (Err(e), s2) => (Err(e), s2),
            (Ok(p), s2) => (Ok(replicated(p)), s2),
        }
    } else {
        comb_process(s1)
    }
}

/// A `lookup`, an `if` or a `let`, or else what [`plain_process`] reads.
pub open spec fn comb_process(s: PS) -> Step<ProcessM>
    decreases s.rem(), 7int,
{
    let (lookup, s1) = s.kw("lookup"@);
    let (cond, s2) = s.kw("if"@);
    let (define, s3) = s.kw("let"@);
    if lookup {
        match step(s1, lookup_head(s1)) {
            (Err(e), t) => (Err(e), t),
            (Ok(c), t) => branches(t, c),
        }
    } else if cond {
        match step(s2, cond_head(s2)) {
            (Err(e), t) => (Err(e), t),
            (Ok(c), t) => branches(t, c),
        }
    } else if define {
        match step(s3, let_head(s3)) {
            (Err(e), t) => (Err(e), t),
            (Ok(bs), t) => definitions_body(t, bs),
        }
    } else {
        plain_process(s)
    }
}

/// The two processes that follow a condition.
pub open spec fn branches(s: PS, c: CombM) -> Step<ProcessM>
    decreases s.rem(), 13int,
{
    match step(s, process(s)) {
        (Err(e), s1) => (Err(e), s1),
        (Ok(p), s1) => match else_process(s1) {
            (Err(e), s2) => (Err(e), s2),
            (Ok(q), s2) => (Ok(joined(c, p, q)), s2),
        },
    }
}

/// The two processes that follow definitions.
pub open spec fn definitions_body(s: PS, bs: Seq<(TermM, TermM)>) -> Step<ProcessM>
    decreases s.rem(), 13int,
{
    match step(s, process(s)) {
        (Err(e), s1) => (Err(e), s1),
        (Ok(p), s1) => match else_process(s1) {
            (Err(e), s2) => (Err(e), s2),
            (Ok(q), s2) => (Ok(defined(bs, p, q)), s2),
        },
    }
}

pub open spec fn else_process(s: PS) -> Step<ProcessM>
    decreases s.rem(), 1int,
{
    let (other, s1) = s.kw("else"@);
    if other {
        process(s1)
    } else {
        (Ok(ProcessM::Null), s1)
    }
}

/// The null process, a process in parentheses, an action, or a call.
pub open spec fn plain_process(s: PS) -> Step<ProcessM>
    decreases s.rem(), 6int,
{
    let (zero, s1) = s.punct("0"@);
    let (open, s2) = s1.punct("("@);
    if zero {
        (Ok(ProcessM::Null), s1)
    } else if open {
        parenthesised(s2)
    } else {
        action_or_call(s2)
    }
}

/// A process in parentheses, behind the opening one.
pub open spec fn parenthesised(s: PS) -> Step<ProcessM>
    decreases s.rem(), 13int,
{
    match step(s, process(s)) {
        (Err(e), s1) => (Err(e), s1),
        (Ok(p), s1) => match s1.need(")"@) {
            (Err(e), s2) => (Err(e), s2),
            (Ok(_), s2) => {
                let (at, s3) = s2.punct("@"@);
                if at {
                    match term(s3) {
                        (Err(e), s4) => (Err(e), s4),
                        (Ok(t), s4) => (Ok(located(p, t)), s4),
                    }
                } else {
                    (Ok(p), s3)
                }
            },
        },
    }
}

/// An action and the process behind it, or a call.
pub open spec fn action_or_call(s: PS) -> Step<ProcessM>
    decreases s.rem(), 5int,
{
    match step(s, sapic_action(s)) {
        (Err(e), s1) => (Err(e), s1),
        (Ok(None), s1) => call(s1.to(s.at)),
        (Ok(Some(a)), s1) => {
            let (more, s2) = s1.punct(";"@);
            if more {
                match action_process(s2) {
                    (Err(e), s3) => (Err(e), s3),
                    (Ok(p), s3) => (Ok(acting(a, p)), s3),
                }
            } else {
                (Ok(acting(a, ProcessM::Null)), s2)
            }
        },
    }
}

/// The process of a theory.
#[verifier::opaque]
pub open spec fn toplevel_process(s: PS) -> Step<ProcessM> {
    match s.need_kw("process"@) {
        (Err(e), s1) => (Err(e), s1),
        (Ok(_), s1) => match s1.need(":"@) {
            (Err(e), s2) => (Err(e), s2),
            (Ok(_), s2) => process(s2),
        },
    }
}

/// The parameters of a named process, if it has any.
#[verifier::opaque]
pub open spec fn parameters(s: PS) -> Step<Option<Seq<VarM>>> {
    let (open, s1) = s.punct("("@);
    if open {
        match back_in(s1, var_list(typed(s1), ")"@)) {
            (Err(e), s2) => (Err(e), s2),
            (Ok(vs), s2) => (Ok(Some(vs)), s2),
        }
    } else {
        (Ok(None), s1)
    }
}

/// A named process.
#[verifier::opaque]
pub open spec fn process_def(s: PS) -> Step<ProcessDefM> {
    match s.need_kw("let"@) {
        (Err(e), s1) => (Err(e), s1),
        (Ok(_), s1) => match s1.ident() {
            (Err(e), s2) => (Err(e), s2),
            (Ok(name), s2) => match parameters(s2) {
                (Err(e), s3) => (Err(e), s3),
                (Ok(vars), s3) => match s3.need("="@) {
                    (Err(e), s4) => (Err(e), s4),
                    (Ok(_), s4) => match process(s4) {
                        (Err(e), s5) => (Err(e), s5),
                        (Ok(body), s5) => (Ok((ProcessDefM { name, vars, body })), s5),
                    },
                },
            },
        },
    }
}

/// The state in which `diff` may be used.
pub open spec fn diff_enabled(s: PS) -> PS {
    PS { sig: SigM { enable_diff: true, ..s.sig }, ..s }
}

/// An equivalence of two processes, or of the two sides of one.
#[verifier::opaque]
pub open spec fn equiv_lemma(s: PS, diff: bool) -> Step<ItemM> {
    match s.need_kw(
        if diff {
            "diffEquivLemma"@
        } else {
            "equivLemma"@
        },
    ) {
        (Err(e), s1) => (Err(e), s1),
        (Ok(_), s1) => match s1.need(":"@) {
            (Err(e), s2) => (Err(e), s2),
            (Ok(_), s2) => if diff {
                match process(diff_enabled(s2)) {
                    (Err(e), s3) => (Err(e), s3),
                    (Ok(p), s3) => (Ok(ItemM::DiffEquivLemma(p)), s3),
                }
            } else {
                match process(s2) {
                    (Err(e), s3) => (Err(e), s3),
                    (Ok(p), s3) => match process(s3) {
                        (Err(e), s4) => (Err(e), s4),
                        (Ok(q), s4) => (Ok(ItemM::EquivLemma(p, q)), s4),
                    },
                }
            },
        },
    }
}

/// A text to be passed on to another tool.
#[verifier::opaque]
pub open spec fn export_item(s: PS) -> Step<ItemM> {
    match s.need_kw("export"@) {
        (Err(e), s1) => (Err(e), s1),
        (Ok(_), s1) => match s1.ident() {
            (Err(e), s2) => (Err(e), s2),
            (Ok(tag), s2) => match s2.need(":"@) {
                (Err(e), s3) => (Err(e), s3),
                (Ok(_), s3) => match export_at(s3.src, s3.at) {
                    Some((body, e)) => (Ok(ItemM::Export { tag, body }), s3.to(e)),
                    None => (Err(s3.err("expected export body string"@)), s3),
                },
            },
        },
    }
}

fn join_processes(comb: ProcessComb, p: Process, q: Process) -> (r: Process)
    ensures
        r.deep_view() == joined(comb.deep_view(), p.deep_view(), q.deep_view()),
{
    proof {
        reveal(joined);
    }
    Process::Comb { comb, left: Box::new(p), right: Box::new(q) }
}

fn replicate(p: Process) -> (r: Process)
    ensures
        r.deep_view() == replicated(p.deep_view()),
{
    proof {
        reveal(replicated);
    }
    Process::Replication(Box::new(p))
}

fn act(a: SapicAction, p: Process) -> (r: Process)
    ensures
        r.deep_view() == acting(a.deep_view(), p.deep_view()),
{
    proof {
        reveal(acting);
    }
    Process::Action { action: a, body: Box::new(p) }
}

fn locate(p: Process, t: Term) -> (r: Process)
    ensures
        r.deep_view() == located(p.deep_view(), t.deep_view()),
{
    proof {
        reveal(located);
    }
    Process::AtAnnotation(Box::new(p), t)
}

/// The definitions around `p`.
fn define(bs: &Vec<(Term, Term)>, p: Process, q: &Process) -> (r: Process)
    ensures
        r.deep_view() == defined(bs.deep_view(), p.deep_view(), q.deep_view()),
{
    let mut acc = p;
    let mut i: usize = bs.len();
    assert(bs.deep_view().take(i as int) =~= bs.deep_view());
    while i > 0
        invariant
            i <= bs@.len(),
            defined(bs.deep_view().take(i as int), acc.deep_view(), q.deep_view()) == defined(
                bs.deep_view(),
                p.deep_view(),
                q.deep_view(),
            ),
        decreases i,
    {
        i = i - 1;
        proof {
            let t = bs.deep_view().take(i + 1);
            assert(t.drop_last() =~= bs.deep_view().take(i as int));
            assert(t.last() == bs@[i as int].deep_view());
        }
        let comb = ProcessComb::Let { pat: copy_term(&bs[i].0), value: copy_term(&bs[i].1) };
        acc = join_processes(comb, acc, copy_process(q));
    }
    acc
}

impl Parser {
    fn process_joiner(&mut self) -> (r: Option<ProcessComb>)
        requires
            old(self).wf(),
        ensures
            final(self).wf(),
            (r.deep_view(), final(self)@) == joiner(old(self)@),
            old(self)@.past(final(self)@),
            r is Some ==> old(self)@.at < final(self)@.at,
    {
        self.skip_ws();
        if self.try_punct("||") {
            Some(ProcessComb::Parallel)
        } else if self.peek() == Some('|') && self.peek2() != Some('|') {
            self.bump();
            self.skip_ws();
            Some(ProcessComb::Parallel)
        } else if self.try_punct("+") {
            Some(ProcessComb::Ndc)
        } else {
            None
        }
    }

    fn process_call(&mut self) -> (r: Result<Process, ParseError>)
        requires
            old(self).wf(),
        ensures
            final(self).wf(),
            (outcome(r), final(self)@) == call(old(self)@),
            old(self)@.fwd(final(self)@),
    {
        proof {
            reveal(call);
        }
        match self.identifier() {
            Some(name) => {
                let args = if self.try_punct("(") {
                    self.term_arguments()?
                } else {
                    no_items::<Term>()
                };
                Ok(Process::Call { name, args })
            },
            None => Err(self.err("expected process")),
        }
    }

    /// A process.
    #[verifier::spinoff_prover]
    pub fn process(&mut self) -> (r: Result<Process, ParseError>)
        requires
            old(self).wf(),
        ensures
            final(self).wf(),
            (outcome(r), final(self)@) == process(old(self)@),
            old(self)@.fwd(final(self)@),
        decreases old(self)@.rem(), 12int,
    {
        let saved = self.mode.sapic;
        self.mode.sapic = true;
        let r = self.process_body();
        self.mode.sapic = saved;
        r
    }

    #[verifier::spinoff_prover]
    fn process_body(&mut self) -> (r: Result<Process, ParseError>)
        requires
            old(self).wf(),
        ensures
            final(self).wf(),
            (outcome(r), final(self)@) == process_body(old(self)@),
            old(self)@.fwd(final(self)@),
        decreases old(self)@.rem(), 10int,
    {
        let mut p = self.action_process()?;
        loop
            invariant
                self.wf(),
                old(self)@.fwd(self@),
                more_processes(self@, p.deep_view()) == process_body(old(self)@),
            decreases self@.rem(),
        {
            match self.process_joiner() {
                Some(c) => {
                    let q = self.action_process()?;
                    p = join_processes(c, p, q);
                },
                None => {
                    return Ok(p);
                },
            }
        }
    }

    #[verifier::spinoff_prover]
    fn action_process(&mut self) -> (r: Result<Process, ParseError>)
        requires
            old(self).wf(),
        ensures
            final(self).wf(),
            (outcome(r), final(self)@) == action_process(old(self)@),
            old(self)@.fwd(final(self)@),
        decreases old(self)@.rem(), 8int,
    {
        self.skip_ws();
        if self.try_punct("!") {
            let p = self.process()?;
            return Ok(replicate(p));
        }
        self.comb_process()
    }

    #[verifier::spinoff_prover]
    fn comb_process(&mut self) -> (r: Result<Process, ParseError>)
        requires
            old(self).wf(),
        ensures
            final(self).wf(),
            (outcome(r), final(self)@) == comb_process(old(self)@),
            old(self)@.fwd(final(self)@),
        decreases old(self)@.rem(), 7int,
    {
        if self.try_kw("lookup") {
            let c = self.lookup_head()?;
            return self.process_branches(c);
        }
        if self.try_kw("if") {
            let c = self.cond_head()?;
            return self.process_branches(c);
        }
        if self.try_kw("let") {
            let bs = self.let_head()?;
            return self.let_body(bs);
        }
        self.plain_process()
    }

    #[verifier::spinoff_prover]
    fn process_branches(&mut self, c: ProcessComb) -> (r: Result<Process, ParseError>)
        requires
            old(self).wf(),
        ensures
            final(self).wf(),
            (outcome(r), final(self)@) == branches(old(self)@, c.deep_view()),
            old(self)@.fwd(final(self)@),
        decreases old(self)@.rem(), 13int,
    {
        let p = self.process()?;
        let q = self.else_process()?;
        Ok(join_processes(c, p, q))
    }

    #[verifier::spinoff_prover]
    fn let_body(&mut self, bs: Vec<(Term, Term)>) -> (r: Result<Process, ParseError>)
        requires
            old(self).wf(),
        ensures
            final(self).wf(),
            (outcome(r), final(self)@) == definitions_body(old(self)@, bs.deep_view()),
            old(self)@.fwd(final(self)@),
        decreases old(self)@.rem(), 13int,
    {
        let p = self.process()?;
        let q = self.else_process()?;
        Ok(define(&bs, p, &q))
    }

    #[verifier::spinoff_prover]
    fn else_process(&mut self) -> (r: Result<Process, ParseError>)
        requires
            old(self).wf(),
        ensures
            final(self).wf(),
            (outcome(r), final(self)@) == else_process(old(self)@),
            old(self)@.fwd(final(self)@),
        decreases old(self)@.rem(), 1int,
    {
        if self.try_kw("else") {
            self.process()
        } else {
            Ok(Process::Null)
        }
    }

    #[verifier::spinoff_prover]
    fn plain_process(&mut self) -> (r: Result<Process, ParseError>)
        requires
            old(self).wf(),
        ensures
            final(self).wf(),
            (outcome(r), final(self)@) == plain_process(old(self)@),
            old(self)@.fwd(final(self)@),
        decreases old(self)@.rem(), 6int,
    {
        if self.try_punct("0") {
            return Ok(Process::Null);
        }
        if self.try_punct("(") {
            return self.parens_process();
        }
        self.action_or_call()
    }

    #[verifier::spinoff_prover]
    fn parens_process(&mut self) -> (r: Result<Process, ParseError>)
        requires
            old(self).wf(),
        ensures
            final(self).wf(),
            (outcome(r), final(self)@) == parenthesised(old(self)@),
            old(self)@.fwd(final(self)@),
        decreases old(self)@.rem(), 13int,
    {
        let p = self.process()?;
        self.require_punct(")")?;
        if self.try_punct("@") {
            let t = self.term()?;
            return Ok(locate(p, t));
        }
        Ok(p)
    }

    #[verifier::spinoff_prover]
    fn action_or_call(&mut self) -> (r: Result<Process, ParseError>)
        requires
            old(self).wf(),
        ensures
            final(self).wf(),
            (outcome(r), final(self)@) == action_or_call(old(self)@),
            old(self)@.fwd(final(self)@),
        decreases old(self)@.rem(), 5int,
    {
        let start = self.save();
        match self.try_sapic_action()? {
            Some(a) => {
                if self.try_punct(";") {
                    let p = self.action_process()?;
                    Ok(act(a, p))
                } else {
                    Ok(act(a, Process::Null))
                }
            },
            None => {
                self.restore(start);
                self.process_call()
            },
        }
    }

    /// The process of a theory.
    pub fn toplevel_process(&mut self) -> (r: Result<Process, ParseError>)
        requires
            old(self).wf(),
        ensures
            final(self).wf(),
            (outcome(r), final(self)@) == toplevel_process(old(self)@),
            old(self)@.fwd(final(self)@),
            r is Ok ==> old(self)@.at < final(self)@.at,
    {
        proof {
            reveal(toplevel_process);
        }
        self.require_kw("process")?;
        self.require_punct(":")?;
        self.process()
    }

    fn process_parameters(&mut self) -> (r: Result<Option<Vec<VarSpec>>, ParseError>)
        requires
            old(self).wf(),
        ensures
            final(self).wf(),
            (outcome(r), final(self)@) == parameters(old(self)@),
            old(self)@.fwd(final(self)@),
    {
        proof {
            reveal(parameters);
        }
        if !self.try_punct("(") {
            return Ok(None);
        }
        let saved = self.mode.sapic;
        self.mode.sapic = true;
        let r = self.sep_end_vars(")");
        self.mode.sapic = saved;
        match r {
            Ok(vs) => Ok(Some(vs)),
            Err(e) => Err(e),
        }
    }

    /// A named process.
    pub fn process_def(&mut self) -> (r: Result<ProcessDef, ParseError>)
        requires
            old(self).wf(),
        ensures
            final(self).wf(),
            (outcome(r), final(self)@) == process_def(old(self)@),
            old(self)@.fwd(final(self)@),
            r is Ok ==> old(self)@.at < final(self)@.at,
    {
        proof {
            reveal(process_def);
        }
        self.require_kw("let")?;
        let name = self.ident()?;
        let vars = self.process_parameters()?;
        self.require_punct("=")?;
        let body = self.process()?;
        Ok(ProcessDef { name, vars, body })
    }

    /// An equivalence of two processes, or of the two sides of one.
    #[verifier::spinoff_prover]
    pub fn equiv_lemma(&mut self, diff: bool) -> (r: Result<crate::ast::TheoryItem, ParseError>)
        requires
            old(self).wf(),
        ensures
            final(self).wf(),
            (outcome(r), final(self)@) == equiv_lemma(old(self)@, diff),
            old(self)@.extends(final(self)@),
            r is Ok ==> old(self)@.at < final(self)@.at,
    {
        proof {
            reveal(crate::order::orderly);
            reveal(equiv_lemma);
        }
        if diff {
            self.require_kw("diffEquivLemma")?;
        } else {
            self.require_kw("equivLemma")?;
        }
        self.require_punct(":")?;
        if diff {
            self.sig.enable_diff = true;
            let p = self.process()?;
            return Ok(crate::ast::TheoryItem::DiffEquivLemma(p));
        }
        let p = self.process()?;
        let q = self.process()?;
        Ok(crate::ast::TheoryItem::EquivLemma(p, q))
    }

    /// A text to be passed on to another tool.
    pub fn export_item(&mut self) -> (r: Result<crate::ast::TheoryItem, ParseError>)
        requires
            old(self).wf(),
        ensures
            final(self).wf(),
            (outcome(r), final(self)@) == export_item(old(self)@),
            old(self)@.past(final(self)@),
            r is Ok ==> old(self)@.at < final(self)@.at,
    {
        proof {
            reveal(export_item);
        }
        self.require_kw("export")?;
        let tag = self.ident()?;
        self.require_punct(":")?;
        proof {
            crate::tokens::lemma_export_rest(
                self@.src,
                crate::tokens::ws_end(self@.src, self@.at) + 1,
                Seq::empty(),
            );
        }
        match self.lx.export_body() {
            Some(body) => Ok(crate::ast::TheoryItem::Export { tag, body }),
            None => Err(self.err("expected export body string")),
        }
    }
}

} // verus!
