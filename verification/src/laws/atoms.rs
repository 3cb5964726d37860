//! What atomic formulas say.

use crate::ast::{AtomM, FactM, FormulaM, LSort, TermM, VarM};
use crate::error::ErrorM;
use crate::facts::fact;
use crate::formulas::{
    atom_formula, earlier, equality, last_atom, node_operand, node_sorted, node_var, relation,
};
use crate::laws::tokens::{behind, inside, lemma_one_of, lemma_spaced, one_of};
use crate::state::{group_steps, PS};
use crate::terms::term;
use vstd::prelude::*;

verus! {

broadcast use {group_steps, crate::tokens::group_lexer};

/// A term stands for a point in time: a variable becomes one of that sort under
/// the same name and index, and a name without arguments the variable of that
/// name. Nothing else changes.
pub proof fn law_points_in_time(t: TermM)
    ensures
        t matches TermM::Var(v) ==> node_sorted(t) == TermM::Var(
            VarM { name: v.name, idx: v.idx, sort: LSort::Node, typ: v.typ },
        ),
        t matches TermM::App(name, args) ==> args.len() == 0 ==> node_sorted(t) == TermM::Var(
            VarM { name, idx: 0, sort: LSort::Node, typ: None },
        ),
        t matches TermM::App(name, args) ==> args.len() > 0 ==> node_sorted(t) == t,
        !(t is Var) && !(t is App) ==> node_sorted(t) == t,
        node_sorted(node_sorted(t)) == node_sorted(t),
{
}

/// Which terms can stand for a point in time beside `=` and `<`: variables of
/// that sort, variables whose sort is not written, and names without arguments.
pub proof fn law_operands_in_time(t: TermM, written_sort: bool)
    ensures
        node_operand(t, written_sort) is Some <==> (t matches TermM::Var(v) && (v.sort
            == LSort::Node || v.sort == LSort::Msg && !written_sort)) || (t matches TermM::App(
            _,
            args,
        ) && args.len() == 0),
        node_operand(t, written_sort) matches Some(n) ==> n == node_sorted(t),
        node_var(t) <==> (t matches TermM::Var(v) && v.sort == LSort::Node),
{
}

/// A fact and the point in time behind `@`: the fact is an action at that
/// point.
pub proof fn law_actions_in_formulas(s: PS, f: FactM, e: PS, t: TermM, u: PS)
    requires
        inside(s),
        !s.kw("last"@).0,
        fact(s) == (Ok::<FactM, ErrorM>(f), e),
        e.punct("@"@).0,
        term(e.punct("@"@).1) == (Ok::<TermM, ErrorM>(t), u),
    ensures
        atom_formula(s) == (
            Ok::<FormulaM, ErrorM>(FormulaM::Atom(AtomM::Action(f, node_sorted(t)))),
            u,
        ),
{
    reveal(atom_formula);
}

/// A fact with neither `@` nor a relation behind it is a predicate.
pub proof fn law_predicates_in_formulas(s: PS, f: FactM, e: PS)
    requires
        inside(s),
        inside(e),
        !s.kw("last"@).0,
        fact(s) == (Ok::<FactM, ErrorM>(f), e),
        !e.punct("@"@).0,
        forall|p: Seq<char>|
            p == "<<"@ || p == "⊏"@ || p == "(<)"@ || p == "="@ || p == "<"@ ==> !(
            #[trigger] e.punct(p)).0,
    ensures
        atom_formula(s).0 == Ok::<FormulaM, ErrorM>(FormulaM::Atom(AtomM::Pred(f))),
{
    reveal(atom_formula);
    reveal(PS::punct);
    lemma_spaced(e, "@"@);
    assert(!e.punct("<<"@).0 && !e.punct("⊏"@).0 && !e.punct("(<)"@).0 && !e.punct("="@).0
        && !e.punct("<"@).0);
}

/// `last(i)` says that `i` is the last point in time.
pub proof fn law_last_points(s: PS, t: TermM, e: PS)
    requires
        inside(s),
        s.kw("last"@).0,
        s.kw("last"@).1.punct("("@).0,
        term(s.kw("last"@).1.punct("("@).1) == (Ok::<TermM, ErrorM>(t), e),
        e.punct(")"@).0,
    ensures
        atom_formula(s) == (
            Ok::<FormulaM, ErrorM>(FormulaM::Atom(AtomM::Last(node_sorted(t)))),
            e.punct(")"@).1,
        ),
{
    reveal(atom_formula);
    reveal(last_atom);
}

/// Two terms with `=` between them are equal: where one is a point in time,
/// both have to be.
pub proof fn law_equal_terms(s: PS, a: TermM, e: PS, b: TermM, t: PS)
    requires
        inside(s),
        term(s) == (Ok::<TermM, ErrorM>(a), e),
        e.punct("="@).0,
        term(e.punct("="@).1) == (Ok::<TermM, ErrorM>(b), t),
    ensures
        !node_var(a) && !node_var(b) ==> relation(s) == (
            Ok::<FormulaM, ErrorM>(FormulaM::Atom(AtomM::Eq(a, b))),
            t,
        ),
        node_var(a) && node_var(b) ==> relation(s) == (
            Ok::<FormulaM, ErrorM>(FormulaM::Atom(AtomM::Eq(a, b))),
            t,
        ),
        !node_var(a) && node_var(b) ==> relation(s).0 is Err,
        node_var(a) && node_operand(b, t.h.sort_suffix) is None ==> relation(s).0 is Err,
        node_var(a) && node_operand(b, t.h.sort_suffix) is Some ==> relation(s) == (
            Ok::<FormulaM, ErrorM>(FormulaM::Atom(AtomM::Eq(a, node_sorted(b)))),
            t,
        ),
{
    reveal(relation);
    reveal(equality);
}

/// Two terms with `<<` between them: the first is a subterm of the second.
pub proof fn law_subterms(s: PS, a: TermM, e: PS, b: TermM, t: PS)
    requires
        inside(s),
        inside(e),
        term(s) == (Ok::<TermM, ErrorM>(a), e),
        !e.punct("="@).0,
        one_of(e, "<<"@, "⊏"@),
        term(behind(e, "<<"@, "⊏"@)) == (Ok::<TermM, ErrorM>(b), t),
    ensures
        relation(s) == (Ok::<FormulaM, ErrorM>(FormulaM::Atom(AtomM::Subterm(a, b))), t),
{
    reveal(relation);
    lemma_spaced(e, "="@);
    lemma_one_of(e, "<<"@, "⊏"@);
}

/// Two terms with `<` between them are points in time, the first before the
/// second.
pub proof fn law_points_in_order(s: PS, a: TermM, e: PS, b: TermM, t: PS)
    requires
        inside(s),
        inside(e),
        term(s) == (Ok::<TermM, ErrorM>(a), e),
        !e.punct("="@).0,
        !one_of(e, "<<"@, "⊏"@),
        !e.punct("(<)"@).0,
        e.punct("<"@).0,
        term(e.punct("<"@).1) == (Ok::<TermM, ErrorM>(b), t),
    ensures
        node_operand(a, e.h.sort_suffix) is Some && node_operand(b, t.h.sort_suffix) is Some
            ==> relation(s) == (
            Ok::<FormulaM, ErrorM>(FormulaM::Atom(AtomM::Less(node_sorted(a), node_sorted(b)))),
            t,
        ),
        node_operand(a, e.h.sort_suffix) is None || node_operand(b, t.h.sort_suffix) is None
            ==> relation(s).0 is Err,
{
    reveal(relation);
    reveal(earlier);
    lemma_spaced(e, "="@);
    lemma_spaced(e, "(<)"@);
    lemma_spaced(e, "<"@);
    lemma_one_of(e, "<<"@, "⊏"@);
}

/// Two terms with `(<)` between them: the first is the smaller multiset, which
/// the predicate `Smaller` says. Multisets have to be turned on.
pub proof fn law_smaller_multisets(s: PS, a: TermM, e: PS, b: TermM, t: PS)
    requires
        inside(s),
        inside(e),
        term(s) == (Ok::<TermM, ErrorM>(a), e),
        !e.punct("="@).0,
        !one_of(e, "<<"@, "⊏"@),
        e.punct("(<)"@).0,
        term(e.punct("(<)"@).1) == (Ok::<TermM, ErrorM>(b), t),
    ensures
        !s.sig.enable_mset ==> relation(s).0 is Err,
        s.sig.enable_mset ==> relation(s) == (
            Ok::<FormulaM, ErrorM>(
                FormulaM::Atom(
                    AtomM::Pred(
                        FactM {
                            persistent: false,
                            name: "Smaller"@,
                            args: seq![a, b],
                            annotations: Seq::empty(),
                        },
                    ),
                ),
            ),
            t,
        ),
{
    reveal(relation);
    lemma_spaced(e, "="@);
    lemma_spaced(e, "(<)"@);
    lemma_one_of(e, "<<"@, "⊏"@);
}

} // verus!
