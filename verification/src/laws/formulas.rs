//! What the connectives of formulas mean.

use crate::ast::{FormulaM, VarM};
use crate::error::ErrorM;
use crate::formulas::{
    atom_formula, binders, bound, bound_vars, conjuncts, disjuncts, fatom, formula, grouped,
    more_conjuncts, more_disjuncts, negation,
};
use crate::laws::tokens::{
    behind, behind_word, inside, lemma_one_of, lemma_spaced, lemma_word_or_token, one_of, reads,
    word_or_token,
};
use crate::state::{group_steps, PS};
use crate::vars::variable;
use vstd::prelude::*;

verus! {

broadcast use {group_steps, crate::tokens::group_lexer};

/// The truth of a formula, where `v` says which atoms and quantified formulas
/// are true.
pub open spec fn truth(f: FormulaM, v: spec_fn(FormulaM) -> bool) -> bool
    decreases f,
{
    match f {
        FormulaM::False => false,
        FormulaM::True => true,
        FormulaM::Not(a) => !truth(*a, v),
        FormulaM::And(a, b) => truth(*a, v) && truth(*b, v),
        FormulaM::Or(a, b) => truth(*a, v) || truth(*b, v),
        FormulaM::Implies(a, b) => truth(*a, v) ==> truth(*b, v),
        FormulaM::Iff(a, b) => truth(*a, v) == truth(*b, v),
        _ => v(f),
    }
}

/// The formulas joined from the left by "or", and by "and".
pub open spec fn any_of(fs: Seq<FormulaM>) -> FormulaM
    decreases fs.len(),
{
    if fs.len() <= 1 {
        fs[0]
    } else {
        FormulaM::Or(Box::new(any_of(fs.drop_last())), Box::new(fs.last()))
    }
}

pub open spec fn all_of(fs: Seq<FormulaM>) -> FormulaM
    decreases fs.len(),
{
    if fs.len() <= 1 {
        fs[0]
    } else {
        FormulaM::And(Box::new(all_of(fs.drop_last())), Box::new(fs.last()))
    }
}

proof fn lemma_truth_of_many(fs: Seq<FormulaM>, v: spec_fn(FormulaM) -> bool)
    requires
        fs.len() > 0,
    ensures
        truth(any_of(fs), v) <==> exists|i: int| 0 <= i < fs.len() && truth(#[trigger] fs[i], v),
        truth(all_of(fs), v) <==> forall|i: int| 0 <= i < fs.len() ==> truth(#[trigger] fs[i], v),
    decreases fs.len(),
{
    if fs.len() > 1 {
        let t = fs.drop_last();
        lemma_truth_of_many(t, v);
        assert(fs.last() == fs[fs.len() - 1]);
        assert forall|i: int| 0 <= i < t.len() implies #[trigger] t[i] == fs[i] by {}
        assert forall|i: int| 0 <= i < t.len() implies #[trigger] fs[i] == t[i] by {}
        if exists|i: int| 0 <= i < fs.len() && truth(#[trigger] fs[i], v) {
            let k = choose|i: int| 0 <= i < fs.len() && truth(#[trigger] fs[i], v);
            if k < t.len() {
                assert(truth(t[k], v));
            }
        }
    } else {
        assert(fs[0] == fs[fs.len() - 1]);
    }
}

/// Whether a conjunction is read at `s` as `f`, up to `e`.
#[verifier::opaque]
pub open spec fn conjunction_at(s: PS, f: FormulaM, e: PS) -> bool {
    inside(s) && reads(s, conjuncts(s), f, e)
}

/// Whether formulas are read at the states `at`, each up to one of the states
/// `ends`, with "or" between them and none behind the last.
pub open spec fn alternatives(at: Seq<PS>, fs: Seq<FormulaM>, ends: Seq<PS>) -> bool {
    &&& 0 < fs.len() == at.len() == ends.len()
    &&& forall|i: int| 0 <= i < fs.len() ==> conjunction_at(#[trigger] at[i], fs[i], ends[i])
    &&& forall|i: int|
        0 <= i < fs.len() - 1 ==> one_of(#[trigger] ends[i], "|"@, "∨"@) && at[i + 1] == behind(
            ends[i],
            "|"@, "∨"@,
        )
    &&& !one_of(ends.last(), "|"@, "∨"@)
}

proof fn lemma_or_step(e: PS, a: FormulaM, b: FormulaM, f: PS)
    requires
        inside(e),
        one_of(e, "|"@, "∨"@),
        conjunction_at(behind(e, "|"@, "∨"@), b, f),
    ensures
        more_disjuncts(e, a) == more_disjuncts(f, FormulaM::Or(Box::new(a), Box::new(b))),
        inside(f),
{
    reveal(conjunction_at);
    lemma_one_of(e, "|"@, "∨"@);
}

proof fn lemma_or_end(e: PS, a: FormulaM)
    requires
        inside(e),
        !one_of(e, "|"@, "∨"@),
    ensures
        more_disjuncts(e, a) == (Ok::<FormulaM, ErrorM>(a), e.ws()),
{
    lemma_one_of(e, "|"@, "∨"@);
}

proof fn lemma_or_start(s: PS, a: FormulaM, e: PS)
    requires
        conjunction_at(s, a, e),
    ensures
        disjuncts(s) == more_disjuncts(e, a),
        inside(e),
{
    reveal(conjunction_at);
}

proof fn lemma_alternatives(at: Seq<PS>, fs: Seq<FormulaM>, ends: Seq<PS>, k: int)
    requires
        alternatives(at, fs, ends),
        0 <= k < fs.len(),
        inside(ends[k]),
    ensures
        more_disjuncts(ends[k], any_of(fs.take(k + 1))) == (
            Ok::<FormulaM, ErrorM>(any_of(fs)),
            ends.last().ws(),
        ),
    decreases fs.len() - k,
{
    if k + 1 < fs.len() {
        assert(fs.take(k + 2).drop_last() =~= fs.take(k + 1));
        assert(fs.take(k + 2).last() == fs[k + 1]);
        assert(conjunction_at(at[k + 1], fs[k + 1], ends[k + 1]));
        assert(one_of(ends[k], "|"@, "∨"@));
        lemma_or_step(ends[k], any_of(fs.take(k + 1)), fs[k + 1], ends[k + 1]);
        lemma_alternatives(at, fs, ends, k + 1);
    } else {
        assert(fs.take(k + 1) =~= fs);
        lemma_or_end(ends[k], any_of(fs));
    }
}

/// Conjunctions with `|` between them are their disjunction: it is true exactly
/// where one of them is, and it is joined from the left.
pub proof fn law_disjunctions(
    at: Seq<PS>,
    fs: Seq<FormulaM>,
    ends: Seq<PS>,
    v: spec_fn(FormulaM) -> bool,
)
    requires
        alternatives(at, fs, ends),
    ensures
        disjuncts(at[0]) == (Ok::<FormulaM, ErrorM>(any_of(fs)), ends.last().ws()),
        truth(disjuncts(at[0]).0->Ok_0, v) <==> exists|i: int|
            0 <= i < fs.len() && truth(#[trigger] fs[i], v),
{
    assert(conjunction_at(at[0], fs[0], ends[0]));
    lemma_or_start(at[0], fs[0], ends[0]);
    lemma_alternatives(at, fs, ends, 0);
    assert(fs.take(1)[0] == fs[0]);
    lemma_truth_of_many(fs, v);
}

/// Two formulas with `|` between them are the disjunction of the two.
pub proof fn law_a_disjunction_of_two(s: PS, a: FormulaM, e: PS, b: FormulaM, f: PS)
    requires
        conjunction_at(s, a, e),
        one_of(e, "|"@, "∨"@),
        conjunction_at(behind(e, "|"@, "∨"@), b, f),
        !one_of(f, "|"@, "∨"@),
    ensures
        disjuncts(s) == (
            Ok::<FormulaM, ErrorM>(FormulaM::Or(Box::new(a), Box::new(b))),
            f.ws(),
        ),
{
    lemma_or_start(s, a, e);
    lemma_or_step(e, a, b, f);
    lemma_or_end(f, FormulaM::Or(Box::new(a), Box::new(b)));
}

/// Whether a formula that may be negated is read at `s` as `f`, up to `e`.
#[verifier::opaque]
pub open spec fn condition_at(s: PS, f: FormulaM, e: PS) -> bool {
    inside(s) && reads(s, negation(s), f, e)
}

/// Whether formulas are read at the states `at`, each up to one of the states
/// `ends`, with "and" between them and none behind the last.
pub open spec fn conditions(at: Seq<PS>, fs: Seq<FormulaM>, ends: Seq<PS>) -> bool {
    &&& 0 < fs.len() == at.len() == ends.len()
    &&& forall|i: int| 0 <= i < fs.len() ==> condition_at(#[trigger] at[i], fs[i], ends[i])
    &&& forall|i: int|
        0 <= i < fs.len() - 1 ==> one_of(#[trigger] ends[i], "&"@, "∧"@) && at[i + 1] == behind(
            ends[i],
            "&"@, "∧"@,
        )
    &&& !one_of(ends.last(), "&"@, "∧"@)
}

proof fn lemma_and_step(e: PS, a: FormulaM, b: FormulaM, f: PS)
    requires
        inside(e),
        one_of(e, "&"@, "∧"@),
        condition_at(behind(e, "&"@, "∧"@), b, f),
    ensures
        more_conjuncts(e, a) == more_conjuncts(f, FormulaM::And(Box::new(a), Box::new(b))),
        inside(f),
{
    reveal(condition_at);
    lemma_one_of(e, "&"@, "∧"@);
}

proof fn lemma_and_end(e: PS, a: FormulaM)
    requires
        inside(e),
        !one_of(e, "&"@, "∧"@),
    ensures
        more_conjuncts(e, a) == (Ok::<FormulaM, ErrorM>(a), e.ws()),
{
    lemma_one_of(e, "&"@, "∧"@);
}

proof fn lemma_and_start(s: PS, a: FormulaM, e: PS)
    requires
        condition_at(s, a, e),
    ensures
        conjuncts(s) == more_conjuncts(e, a),
        inside(e),
{
    reveal(condition_at);
}

proof fn lemma_conditions(at: Seq<PS>, fs: Seq<FormulaM>, ends: Seq<PS>, k: int)
    requires
        conditions(at, fs, ends),
        0 <= k < fs.len(),
        inside(ends[k]),
    ensures
        more_conjuncts(ends[k], all_of(fs.take(k + 1))) == (
            Ok::<FormulaM, ErrorM>(all_of(fs)),
            ends.last().ws(),
        ),
    decreases fs.len() - k,
{
    if k + 1 < fs.len() {
        assert(fs.take(k + 2).drop_last() =~= fs.take(k + 1));
        assert(fs.take(k + 2).last() == fs[k + 1]);
        assert(condition_at(at[k + 1], fs[k + 1], ends[k + 1]));
        assert(one_of(ends[k], "&"@, "∧"@));
        lemma_and_step(ends[k], all_of(fs.take(k + 1)), fs[k + 1], ends[k + 1]);
        lemma_conditions(at, fs, ends, k + 1);
    } else {
        assert(fs.take(k + 1) =~= fs);
        lemma_and_end(ends[k], all_of(fs));
    }
}

/// Formulas with `&` between them are their conjunction: it is true exactly
/// where each of them is, and it is joined from the left.
pub proof fn law_conjunctions(
    at: Seq<PS>,
    fs: Seq<FormulaM>,
    ends: Seq<PS>,
    v: spec_fn(FormulaM) -> bool,
)
    requires
        conditions(at, fs, ends),
    ensures
        conjuncts(at[0]) == (Ok::<FormulaM, ErrorM>(all_of(fs)), ends.last().ws()),
        truth(conjuncts(at[0]).0->Ok_0, v) <==> forall|i: int|
            0 <= i < fs.len() ==> truth(#[trigger] fs[i], v),
{
    assert(condition_at(at[0], fs[0], ends[0]));
    lemma_and_start(at[0], fs[0], ends[0]);
    lemma_conditions(at, fs, ends, 0);
    assert(fs.take(1)[0] == fs[0]);
    lemma_truth_of_many(fs, v);
}

/// Two formulas with `&` between them are the conjunction of the two.
pub proof fn law_a_conjunction_of_two(s: PS, a: FormulaM, e: PS, b: FormulaM, f: PS)
    requires
        condition_at(s, a, e),
        one_of(e, "&"@, "∧"@),
        condition_at(behind(e, "&"@, "∧"@), b, f),
        !one_of(f, "&"@, "∧"@),
    ensures
        conjuncts(s) == (
            Ok::<FormulaM, ErrorM>(FormulaM::And(Box::new(a), Box::new(b))),
            f.ws(),
        ),
{
    lemma_and_start(s, a, e);
    lemma_and_step(e, a, b, f);
    lemma_and_end(f, FormulaM::And(Box::new(a), Box::new(b)));
}

/// What stands before `==>` implies what stands behind it, which may be an
/// implication itself; without `==>` the formula is the disjunction alone.
pub proof fn law_implications(
    s: PS,
    a: FormulaM,
    e: PS,
    b: FormulaM,
    f: PS,
    v: spec_fn(FormulaM) -> bool,
)
    requires
        inside(s),
        reads(s, disjuncts(s), a, e),
        one_of(e, "==>"@, "⇒"@) ==> crate::formulas::implies(behind(e, "==>"@, "⇒"@)) == (
            Ok::<FormulaM, ErrorM>(b),
            f,
        ),
    ensures
        one_of(e, "==>"@, "⇒"@) ==> crate::formulas::implies(s) == (
            Ok::<FormulaM, ErrorM>(FormulaM::Implies(Box::new(a), Box::new(b))),
            f,
        ),
        one_of(e, "==>"@, "⇒"@) ==> truth(crate::formulas::implies(s).0->Ok_0, v) == (!truth(a, v) || truth(b, v)),
        !one_of(e, "==>"@, "⇒"@) ==> crate::formulas::implies(s) == (Ok::<FormulaM, ErrorM>(a), e.ws()),
{
    lemma_one_of(e, "==>"@, "⇒"@);
}

/// What stands before `<=>` is equivalent to what stands behind it; without
/// `<=>` the formula is the implication alone.
pub proof fn law_equivalences(
    s: PS,
    a: FormulaM,
    e: PS,
    b: FormulaM,
    f: PS,
    v: spec_fn(FormulaM) -> bool,
)
    requires
        inside(s),
        reads(s, crate::formulas::implies(s), a, e),
        one_of(e, "<=>"@, "⇔"@) ==> crate::formulas::implies(behind(e, "<=>"@, "⇔"@)) == (
            Ok::<FormulaM, ErrorM>(b),
            f,
        ),
    ensures
        one_of(e, "<=>"@, "⇔"@) ==> formula(s) == (
            Ok::<FormulaM, ErrorM>(FormulaM::Iff(Box::new(a), Box::new(b))),
            f,
        ),
        one_of(e, "<=>"@, "⇔"@) ==> truth(formula(s).0->Ok_0, v) == (truth(a, v) == truth(b, v)),
        !one_of(e, "<=>"@, "⇔"@) ==> formula(s) == (Ok::<FormulaM, ErrorM>(a), e.ws()),
{
    reveal(formula);
    lemma_one_of(e, "<=>"@, "⇔"@);
}

/// A formula is negated exactly where `not` or `¬` stands before it.
pub proof fn law_negations(s: PS, v: spec_fn(FormulaM) -> bool)
    requires
        inside(s),
    ensures
        word_or_token(s, "not"@, "¬"@) ==> (negation(s).0 matches Ok(f) ==> fatom(
            behind_word(s, "not"@, "¬"@),
        ).0 == Ok::<FormulaM, ErrorM>(*f->Not_0) && truth(f, v) != truth(*f->Not_0, v)),
        word_or_token(s, "not"@, "¬"@) ==> (negation(s).0 is Ok <==> fatom(
            behind_word(s, "not"@, "¬"@),
        ).0 is Ok),
        !word_or_token(s, "not"@, "¬"@) ==> negation(s) == fatom(s.ws()),
{
    lemma_word_or_token(s, "not"@, "¬"@);
}

/// `F` is never true, and `T` always; each has a symbol too.
pub proof fn law_truth_values(s: PS)
    requires
        inside(s),
    ensures
        word_or_token(s, "F"@, "⊥"@) ==> fatom(s) == (
            Ok::<FormulaM, ErrorM>(FormulaM::False),
            behind_word(s, "F"@, "⊥"@),
        ),
        !word_or_token(s, "F"@, "⊥"@) && word_or_token(s, "T"@, "⊤"@) ==> fatom(s) == (
            Ok::<FormulaM, ErrorM>(FormulaM::True),
            behind_word(s, "T"@, "⊤"@),
        ),
{
    lemma_word_or_token(s, "F"@, "⊥"@);
    lemma_word_or_token(s, "T"@, "⊤"@);
    lemma_word_or_token(s.ws(), "F"@, "⊥"@);
    lemma_word_or_token(s.ws(), "T"@, "⊤"@);
}

/// Whether the formula at `s` starts like none of the truth values.
pub open spec fn no_value(s: PS) -> bool {
    !word_or_token(s, "F"@, "⊥"@) && !word_or_token(s, "T"@, "⊤"@)
}

/// `All` speaks of all values of the variables that it names, in the order in
/// which it names them, and `Ex` of some: the formula behind the dot is what it
/// speaks of.
pub proof fn law_quantifiers(s: PS, vs: Seq<VarM>, e: PS, f: FormulaM, t: PS)
    requires
        inside(s),
        no_value(s),
        word_or_token(s, "All"@, "∀"@) || word_or_token(s, "Ex"@, "∃"@),
        ({
            let b = if word_or_token(s, "All"@, "∀"@) {
                behind_word(s, "All"@, "∀"@)
            } else {
                behind_word(s, "Ex"@, "∃"@)
            };
            reads(b, bound_vars(b), vs, e)
        }),
        formula(e) == (Ok::<FormulaM, ErrorM>(f), t),
    ensures
        word_or_token(s, "All"@, "∀"@) ==> fatom(s) == (
            Ok::<FormulaM, ErrorM>(FormulaM::Forall(vs, Box::new(f))),
            t,
        ),
        !word_or_token(s, "All"@, "∀"@) ==> fatom(s) == (
            Ok::<FormulaM, ErrorM>(FormulaM::Exists(vs, Box::new(f))),
            t,
        ),
{
    reveal(formula);
    reveal(bound);
    lemma_word_or_token(s, "F"@, "⊥"@);
    lemma_word_or_token(s, "T"@, "⊤"@);
    lemma_word_or_token(s, "All"@, "∀"@);
    lemma_word_or_token(s, "Ex"@, "∃"@);
    lemma_word_or_token(s.ws(), "F"@, "⊥"@);
    lemma_word_or_token(s.ws(), "T"@, "⊤"@);
    lemma_word_or_token(s.ws(), "All"@, "∀"@);
    lemma_word_or_token(s.ws(), "Ex"@, "∃"@);
}

/// A formula in parentheses is the formula between them.
pub proof fn law_formulas_in_parentheses(s: PS, f: FormulaM, e: PS)
    requires
        inside(s),
        s.peek() == Some('('),
        reads(s.bump().ws(), formula(s.bump().ws()), f, e),
        e.punct(")"@).0,
    ensures
        grouped(s) == (Ok::<FormulaM, ErrorM>(f), e.punct(")"@).1),
{
    reveal(formula);
}

/// A formula that starts with no word or sign of its own is one in parentheses,
/// or an atom.
pub proof fn law_starts_of_formulas(s: PS)
    requires
        inside(s),
        no_value(s),
        !word_or_token(s, "All"@, "∀"@),
        !word_or_token(s, "Ex"@, "∃"@),
    ensures
        s.ws().peek() == Some('(') ==> fatom(s) == grouped(s.ws()),
        s.ws().peek() != Some('(') ==> fatom(s) == atom_formula(s.ws()),
{
    lemma_word_or_token(s, "F"@, "⊥"@);
    lemma_word_or_token(s, "T"@, "⊤"@);
    lemma_word_or_token(s, "All"@, "∀"@);
    lemma_word_or_token(s, "Ex"@, "∃"@);
    lemma_word_or_token(s.ws(), "F"@, "⊥"@);
    lemma_word_or_token(s.ws(), "T"@, "⊤"@);
    lemma_word_or_token(s.ws(), "All"@, "∀"@);
    lemma_word_or_token(s.ws(), "Ex"@, "∃"@);
}

/// The variables of a quantifier are those that stand before its dot, one
/// behind the other.
pub proof fn law_bound_variables(at: Seq<PS>, vs: Seq<VarM>)
    requires
        at.len() == vs.len() + 1,
        forall|i: int| 0 <= i < at.len() ==> inside(#[trigger] at[i]),
        forall|i: int|
            0 <= i < vs.len() ==> (#[trigger] at[i]).ws().peek() != Some('.') && reads(
                at[i].ws(),
                variable(at[i].ws()),
                vs[i],
                at[i + 1],
            ) && at[i].ws().at < at[i + 1].at,
        at.last().ws().peek() == Some('.'),
    ensures
        bound_vars(at[0]) == (Ok::<Seq<VarM>, ErrorM>(vs), at.last().punct("."@).1),
{
    reveal(bound_vars);
    lemma_binders(at, vs, 0);
    assert(vs.take(0) =~= Seq::empty());
}

proof fn lemma_binders(at: Seq<PS>, vs: Seq<VarM>, k: int)
    requires
        at.len() == vs.len() + 1,
        0 <= k <= vs.len(),
        forall|i: int| 0 <= i < at.len() ==> inside(#[trigger] at[i]),
        forall|i: int|
            0 <= i < vs.len() ==> (#[trigger] at[i]).ws().peek() != Some('.') && reads(
                at[i].ws(),
                variable(at[i].ws()),
                vs[i],
                at[i + 1],
            ) && at[i].ws().at < at[i + 1].at,
        at.last().ws().peek() == Some('.'),
    ensures
        binders(at[k], vs.take(k)) == (
            Ok::<Seq<VarM>, ErrorM>(vs),
            at.last().punct("."@).1,
        ),
    decreases vs.len() - k,
{
    if k < vs.len() {
        assert(inside(at[k]) && inside(at[k + 1]));
        lemma_binders(at, vs, k + 1);
        assert(vs.take(k).push(vs[k]) =~= vs.take(k + 1));
    } else {
        assert(vs.take(k) =~= vs);
        assert(inside(at[k]));
        lemma_spaced(at[k], "."@);
        reveal_strlit(".");
        crate::laws::tokens::law_tokens_stand_in_the_text(at[k], "."@);
    }
}

} // verus!
