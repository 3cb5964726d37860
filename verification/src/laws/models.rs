//! What the models of values have to do with the values.

use crate::ast::{
    ActionM, Atom, AtomM, CombM, Fact, FlagFormula, FlagM, Formula, FormulaM, Lemma, Process,
    ProcessComb, ProcessM, Rule, SapicAction, Term, VarSpec,
};
use vstd::prelude::*;

verus! {

/// The model of a formula has the connective or the quantifier of the formula,
/// and the models of its parts in their places.
pub proof fn law_models_of_formulas(a: Formula, b: Formula, vs: Vec<VarSpec>, x: Atom)
    ensures
        Formula::Not(Box::new(a)).deep_view() == FormulaM::Not(Box::new(a.deep_view())),
        Formula::And(Box::new(a), Box::new(b)).deep_view() == FormulaM::And(
            Box::new(a.deep_view()),
            Box::new(b.deep_view()),
        ),
        Formula::Or(Box::new(a), Box::new(b)).deep_view() == FormulaM::Or(
            Box::new(a.deep_view()),
            Box::new(b.deep_view()),
        ),
        Formula::Implies(Box::new(a), Box::new(b)).deep_view() == FormulaM::Implies(
            Box::new(a.deep_view()),
            Box::new(b.deep_view()),
        ),
        Formula::Iff(Box::new(a), Box::new(b)).deep_view() == FormulaM::Iff(
            Box::new(a.deep_view()),
            Box::new(b.deep_view()),
        ),
        Formula::Forall(vs, Box::new(a)).deep_view() == FormulaM::Forall(
            vs.deep_view(),
            Box::new(a.deep_view()),
        ),
        Formula::Exists(vs, Box::new(a)).deep_view() == FormulaM::Exists(
            vs.deep_view(),
            Box::new(a.deep_view()),
        ),
        Formula::Atom(x).deep_view() == FormulaM::Atom(x.deep_view()),
        Formula::True.deep_view() == FormulaM::True,
        Formula::False.deep_view() == FormulaM::False,
{
}

/// The same of atoms.
pub proof fn law_models_of_atoms(a: Term, b: Term, f: Fact)
    ensures
        Atom::Eq(a, b).deep_view() == AtomM::Eq(a.deep_view(), b.deep_view()),
        Atom::Less(a, b).deep_view() == AtomM::Less(a.deep_view(), b.deep_view()),
        Atom::Subterm(a, b).deep_view() == AtomM::Subterm(a.deep_view(), b.deep_view()),
        Atom::Action(f, a).deep_view() == AtomM::Action(f.deep_view(), a.deep_view()),
        Atom::Last(a).deep_view() == AtomM::Last(a.deep_view()),
        Atom::Pred(f).deep_view() == AtomM::Pred(f.deep_view()),
{
}

/// The same of conditions over flags.
pub proof fn law_models_of_flags(a: FlagFormula, b: FlagFormula, name: String)
    ensures
        FlagFormula::Atom(name).deep_view() == FlagM::Atom(name@),
        FlagFormula::Not(Box::new(a)).deep_view() == FlagM::Not(Box::new(a.deep_view())),
        FlagFormula::And(Box::new(a), Box::new(b)).deep_view() == FlagM::And(
            Box::new(a.deep_view()),
            Box::new(b.deep_view()),
        ),
        FlagFormula::Or(Box::new(a), Box::new(b)).deep_view() == FlagM::Or(
            Box::new(a.deep_view()),
            Box::new(b.deep_view()),
        ),
{
}

/// The same of processes: left stays left, and right stays right.
pub proof fn law_models_of_processes(
    a: Process,
    b: Process,
    comb: ProcessComb,
    action: SapicAction,
    t: Term,
)
    ensures
        Process::Null.deep_view() == ProcessM::Null,
        Process::Replication(Box::new(a)).deep_view() == ProcessM::Replication(
            Box::new(a.deep_view()),
        ),
        (Process::Comb { comb, left: Box::new(a), right: Box::new(b) }).deep_view() == (
        ProcessM::Comb {
            comb: comb.deep_view(),
            left: Box::new(a.deep_view()),
            right: Box::new(b.deep_view()),
        }),
        (Process::Action { action, body: Box::new(a) }).deep_view() == (ProcessM::Action {
            action: action.deep_view(),
            body: Box::new(a.deep_view()),
        }),
        Process::AtAnnotation(Box::new(a), t).deep_view() == ProcessM::AtAnnotation(
            Box::new(a.deep_view()),
            t.deep_view(),
        ),
        ProcessComb::Parallel.deep_view() == CombM::Parallel,
        ProcessComb::Ndc.deep_view() == CombM::Ndc,
{
}

/// The same of the actions of processes.
pub proof fn law_models_of_actions(a: Term, b: Term, v: VarSpec, f: Fact, chan: Option<Term>)
    ensures
        SapicAction::New(v).deep_view() == ActionM::New(v.deep_view()),
        SapicAction::Insert(a, b).deep_view() == ActionM::Insert(a.deep_view(), b.deep_view()),
        SapicAction::Delete(a).deep_view() == ActionM::Delete(a.deep_view()),
        SapicAction::Lock(a).deep_view() == ActionM::Lock(a.deep_view()),
        SapicAction::Unlock(a).deep_view() == ActionM::Unlock(a.deep_view()),
        SapicAction::Event(f).deep_view() == ActionM::Event(f.deep_view()),
        (SapicAction::ChIn { chan, msg: a }).deep_view() == (ActionM::ChIn {
            chan: chan.deep_view(),
            msg: a.deep_view(),
        }),
        (SapicAction::ChOut { chan, msg: a }).deep_view() == (ActionM::ChOut {
            chan: chan.deep_view(),
            msg: a.deep_view(),
        }),
{
}

/// The model of a fact, a variable, a rule and a lemma has their parts under
/// the same names.
pub proof fn law_models_of_parts(f: Fact, v: VarSpec, r: Rule, l: Lemma)
    ensures
        f.deep_view().persistent == f.persistent,
        f.deep_view().name == f.name@,
        f.deep_view().args == f.args.deep_view(),
        v.deep_view().name == v.name@ && v.deep_view().idx == v.idx && v.deep_view().sort == v.sort,
        r.deep_view().name == r.name@,
        r.deep_view().premises == r.premises.deep_view(),
        r.deep_view().actions == r.actions.deep_view(),
        r.deep_view().conclusions == r.conclusions.deep_view(),
        r.deep_view().embedded_restrictions == r.embedded_restrictions.deep_view(),
        r.left_right matches Some(s) ==> (r.deep_view().left_right matches Some(m) && *m.left
            == s.left.deep_view() && *m.right == s.right.deep_view()),
        l.deep_view().name == l.name@,
        l.deep_view().trace_quantifier == l.trace_quantifier,
        l.deep_view().formula == l.formula.deep_view(),
        l.deep_view().proof == l.proof.deep_view(),
{
}

} // verus!
