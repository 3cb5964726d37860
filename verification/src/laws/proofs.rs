//! What stored proofs and their goals say.

use crate::ast::{
    FactM, FormulaM, GoalM, LSort, MethodM, NodeIndexM, ProofTreeM, SkeletonM, TermM, VarM,
};
use crate::basics::dashed_word;
use crate::error::ErrorM;
use crate::facts::fact;
use crate::formulas::formula;
use crate::goals::{
    action_goal, action_head, attempted, chain_goal, chain_head, disj_goal, goal, more_alternatives,
    node_index, nodevar, parens_goal, premise_goal, premise_head, split_goal, split_or_disj,
    subterm_goal, subterm_head,
};
use crate::laws::tokens::{
    behind, inside, law_one_word_at_a_place, lemma_one_of, one_of, reads, word,
};
use crate::proofs::{
    below, case_list, case_name, diff_proof, diff_skeleton, leaf, method, nested, only_child,
    proof_text, proof_tree, skeleton, stops, text_end, with_cases,
};
use crate::state::{group_steps, PS};
use crate::terms::term;
use crate::text::{alphanumeric, ident_char};
use crate::tokens::subscript_at;
use crate::vars::variable;
use vstd::prelude::*;

verus! {

broadcast use {group_steps, crate::tokens::group_lexer};

spec fn method_words() -> Seq<Seq<char>> {
    seq![
        "sorry"@,
        "simplify"@,
        "solve"@,
        "contradiction"@,
        "induction"@,
        "INVALIDATED"@,
        "UNFINISHABLE"@,
        "SOLVED"@,
        "by"@,
    ]
}

/// No two of these words are read at one place.
proof fn lemma_one_method_word(s: PS)
    requires
        inside(s),
    ensures
        forall|a: int, b: int|
            0 <= a < 9 && 0 <= b < 9 && a != b && (#[trigger] s.kw(method_words()[a])).0 ==> !(
            #[trigger] s.kw(method_words()[b])).0,
        method_words()[0] == "sorry"@,
        method_words()[1] == "simplify"@,
        method_words()[2] == "solve"@,
        method_words()[3] == "contradiction"@,
        method_words()[4] == "induction"@,
        method_words()[5] == "INVALIDATED"@,
        method_words()[6] == "UNFINISHABLE"@,
        method_words()[7] == "SOLVED"@,
        method_words()[8] == "by"@,
{
    reveal(alphanumeric);
    reveal_strlit("sorry");
    reveal_strlit("simplify");
    reveal_strlit("solve");
    reveal_strlit("contradiction");
    reveal_strlit("induction");
    reveal_strlit("INVALIDATED");
    reveal_strlit("UNFINISHABLE");
    reveal_strlit("SOLVED");
    reveal_strlit("by");
    let w = method_words();
    assert(w[0] == "sorry"@ && word(w[0]) && w[0].len() == 5);
    assert(w[1] == "simplify"@ && word(w[1]) && w[1].len() == 8);
    assert(w[2] == "solve"@ && word(w[2]) && w[2].len() == 5);
    assert(w[3] == "contradiction"@ && word(w[3]) && w[3].len() == 13);
    assert(w[4] == "induction"@ && word(w[4]) && w[4].len() == 9);
    assert(w[5] == "INVALIDATED"@ && word(w[5]) && w[5].len() == 11);
    assert(w[6] == "UNFINISHABLE"@ && word(w[6]) && w[6].len() == 12);
    assert(w[7] == "SOLVED"@ && word(w[7]) && w[7].len() == 6);
    assert(w[8] == "by"@ && word(w[8]) && w[8].len() == 2);
    assert(w[0][2] == 'r' && w[2][2] == 'l');
    assert forall|a: int, b: int|
        0 <= a < 9 && 0 <= b < 9 && a != b && (#[trigger] s.kw(w[a])).0 implies !(
    #[trigger] s.kw(w[b])).0 by {
        if s.kw(w[b]).0 {
            law_one_word_at_a_place(s, w[a], w[b]);
        }
    }
}

/// What the words for proof methods stand for.
pub proof fn law_words_for_methods(s: PS)
    requires
        inside(s),
    ensures
        s.kw("sorry"@).0 ==> method(s) == (Ok::<MethodM, ErrorM>(MethodM::Sorry), s.kw("sorry"@).1),
        s.kw("simplify"@).0 ==> method(s) == (
            Ok::<MethodM, ErrorM>(MethodM::Simplify),
            s.kw("simplify"@).1,
        ),
        s.kw("contradiction"@).0 ==> method(s) == (
            Ok::<MethodM, ErrorM>(MethodM::Contradiction),
            s.kw("contradiction"@).1,
        ),
        s.kw("induction"@).0 ==> method(s) == (
            Ok::<MethodM, ErrorM>(MethodM::Induction),
            s.kw("induction"@).1,
        ),
        s.kw("INVALIDATED"@).0 ==> method(s) == (
            Ok::<MethodM, ErrorM>(MethodM::Invalidated),
            s.kw("INVALIDATED"@).1,
        ),
        s.kw("UNFINISHABLE"@).0 ==> method(s) == (
            Ok::<MethodM, ErrorM>(MethodM::Unfinishable),
            s.kw("UNFINISHABLE"@).1,
        ),
        s.kw("solve"@).0 ==> (method(s).0 is Ok <==> parens_goal(s.kw("solve"@).1).0 is Ok),
        s.kw("solve"@).0 && method(s).0 is Ok ==> method(s).0->Ok_0 == MethodM::Solve(
            parens_goal(s.kw("solve"@).1).0->Ok_0,
        ),
        method(s).0 matches Ok(m) ==> m != MethodM::Solved,
{
    reveal(method);
    lemma_one_method_word(s);
}

/// A proof that is `SOLVED`, or that stands behind `by`, has no cases below it.
pub proof fn law_proofs_without_cases(s: PS)
    requires
        inside(s),
    ensures
        s.kw("SOLVED"@).0 ==> (proof_tree(s).0 matches Ok(t) && t.method == MethodM::Solved
            && t.case_names.len() == 0 && t.cases.len() == 0),
        s.kw("by"@).0 ==> (proof_tree(s).0 is Ok <==> method(s.kw("by"@).1).0 is Ok),
        s.kw("by"@).0 && proof_tree(s).0 is Ok ==> ({
            let t = proof_tree(s).0->Ok_0;
            &&& method(s.kw("by"@).1).0 == Ok::<MethodM, ErrorM>(t.method)
            &&& t.case_names.len() == 0 && t.cases.len() == 0
        }),
{
    reveal(leaf);
    lemma_one_method_word(s);
}

/// Below a method stand its cases; where the proof goes on without a case it is
/// the only one, without a name, and `qed` closes a proof without cases.
pub proof fn law_proofs_go_on(s: PS, m: MethodM)
    ensures
        !s.kw("case"@).0 && s.kw("qed"@).0 ==> (below(s, m).0 matches Ok(t) && t.method == m
            && t.cases.len() == 0 && t.case_names.len() == 0),
        !s.kw("case"@).0 && !s.kw("qed"@).0 ==> (below(s, m).0 is Ok <==> proof_tree(s).0 is Ok),
        !s.kw("case"@).0 && !s.kw("qed"@).0 && below(s, m).0 is Ok ==> ({
            let t = below(s, m).0->Ok_0;
            &&& t.method == m
            &&& t.cases.len() == 1 && t.cases[0] == proof_tree(s).0->Ok_0
            &&& t.case_names.len() == 1 && t.case_names[0].len() == 0
        }),
        s.kw("case"@).0 ==> below(s, m) == case_list(s, m, Seq::empty(), Seq::empty()),
{
    reveal(only_child);
    reveal(with_cases);
}

/// Whether a case is read at `s`: its name and its proof, up to `e`.
#[verifier::opaque]
pub open spec fn case_at(s: PS, name: Seq<char>, t: ProofTreeM, e: PS) -> bool {
    let n = s.kw("case"@).1;
    &&& s.kw("case"@).0
    &&& reads(n, case_name(n), name, case_name(n).1)
    &&& reads(case_name(n).1, proof_tree(case_name(n).1), t, e)
}

proof fn lemma_case_step(
    s: PS,
    m: MethodM,
    names: Seq<Seq<char>>,
    ts: Seq<ProofTreeM>,
    n: Seq<char>,
    t: ProofTreeM,
    e: PS,
)
    requires
        case_at(s, n, t, e),
    ensures
        e.kw("next"@).0 ==> case_list(s, m, names, ts) == case_list(
            e.kw("next"@).1,
            m,
            names.push(n),
            ts.push(t),
        ),
        !e.kw("next"@).0 && e.kw("qed"@).0 ==> case_list(s, m, names, ts) == (
            Ok::<ProofTreeM, ErrorM>(
                ProofTreeM { method: m, case_names: names.push(n), cases: ts.push(t) },
            ),
            e.kw("qed"@).1,
        ),
{
    reveal(case_at);
    reveal(with_cases);
}

/// Whether cases are read at the states `at`, with `next` between them and `qed`
/// behind the last.
pub open spec fn cases_at(
    at: Seq<PS>,
    names: Seq<Seq<char>>,
    ts: Seq<ProofTreeM>,
    ends: Seq<PS>,
) -> bool {
    &&& 0 < ts.len() == names.len() == at.len() == ends.len()
    &&& forall|i: int| 0 <= i < ts.len() ==> case_at(#[trigger] at[i], names[i], ts[i], ends[i])
    &&& forall|i: int|
        0 <= i < ts.len() - 1 ==> (#[trigger] ends[i]).kw("next"@) == (true, at[i + 1])
    &&& !ends.last().kw("next"@).0
    &&& ends.last().kw("qed"@).0
}

proof fn lemma_cases_at(
    at: Seq<PS>,
    m: MethodM,
    names: Seq<Seq<char>>,
    ts: Seq<ProofTreeM>,
    ends: Seq<PS>,
    k: int,
)
    requires
        cases_at(at, names, ts, ends),
        0 <= k < ts.len(),
    ensures
        case_list(at[k], m, names.take(k), ts.take(k)) == (
            Ok::<ProofTreeM, ErrorM>(ProofTreeM { method: m, case_names: names, cases: ts }),
            ends.last().kw("qed"@).1,
        ),
    decreases ts.len() - k,
{
    assert(case_at(at[k], names[k], ts[k], ends[k]));
    lemma_case_step(at[k], m, names.take(k), ts.take(k), names[k], ts[k], ends[k]);
    assert(names.take(k).push(names[k]) =~= names.take(k + 1));
    assert(ts.take(k).push(ts[k]) =~= ts.take(k + 1));
    if k + 1 < ts.len() {
        assert(ends[k].kw("next"@) == (true, at[k + 1]));
        lemma_cases_at(at, m, names, ts, ends, k + 1);
    } else {
        assert(names.take(k + 1) =~= names);
        assert(ts.take(k + 1) =~= ts);
    }
}

/// The cases of a proof are those that are written, under their names and in
/// their order.
pub proof fn law_cases_in_order(
    at: Seq<PS>,
    m: MethodM,
    names: Seq<Seq<char>>,
    ts: Seq<ProofTreeM>,
    ends: Seq<PS>,
)
    requires
        cases_at(at, names, ts, ends),
    ensures
        below(at[0], m).0 matches Ok(t) && t.method == m && t.case_names == names && t.cases == ts,
{
    assert(case_at(at[0], names[0], ts[0], ends[0]));
    assert(at[0].kw("case"@).0) by {
        reveal(case_at);
    }
    lemma_cases_at(at, m, names, ts, ends, 0);
    assert(names.take(0) =~= Seq::empty());
    assert(ts.take(0) =~= Seq::empty());
}

/// The text of a proof ends where the next item starts, or with the input.
pub proof fn law_texts_of_proofs(s: PS, word_goes_on: bool, depth: int, label: bool)
    requires
        inside(s),
    ensures
        ({
            let e = text_end(s, word_goes_on, depth, label);
            &&& s.at <= e <= s.src.len()
            &&& e == s.src.len() || stops(s.to(e))
        }),
    decreases s.rem(),
{
    let w = s.ws();
    if w.peek() is Some {
        let on = word_goes_on && w.at == s.at;
        let here = depth == 0 && !on;
        if !(here && !label && stops(w)) {
            let c = w.peek()->0;
            law_texts_of_proofs(
                w.bump(),
                ident_char(c) || c == '-',
                if c == '(' {
                    depth + 1
                } else if c == ')' && depth > 0 {
                    depth - 1
                } else {
                    depth
                },
                if here {
                    !label && dashed_word(w) == Some("case"@)
                } else {
                    label
                },
            );
        }
    }
}

/// The words that start an item end a proof, and so do the directives.
pub proof fn law_words_that_end_proofs(s: PS)
    ensures
        dashed_word(s) matches Some(w) ==> (w == "end"@ || w == "rule"@ || w == "lemma"@ || w
            == "restriction"@ || w == "axiom"@ || w == "functions"@ || w == "equations"@ || w
            == "builtins"@ || w == "process"@ || w == "predicates"@ || w == "macros"@ || w
            == "tactic"@ || w == "heuristic"@ || w == "diffLemma"@ || w == "test"@ || w
            == "options"@ || w == "export"@ || w == "equivLemma"@ || w == "diffEquivLemma"@)
            ==> stops(s),
{
    reveal(stops);
    let v = crate::proofs::stop_words();
    assert(v[0] == "end"@ && v[1] == "rule"@ && v[2] == "lemma"@ && v[3] == "diffLemma"@ && v[4]
        == "restriction"@ && v[5] == "axiom"@ && v[6] == "tactic"@ && v[7] == "heuristic"@ && v[8]
        == "predicates"@ && v[10] == "macros"@ && v[12] == "functions"@ && v[14] == "equations"@
        && v[15] == "builtins"@ && v[16] == "options"@ && v[17] == "process"@ && v[18] == "test"@
        && v[19] == "equivLemma"@ && v[20] == "diffEquivLemma"@ && v[21] == "export"@);
}

/// A proof is read where a word comes next that starts one, and is the whole
/// text up to the next item.
pub proof fn law_stored_proofs(s: PS)
    ensures
        skeleton(s).0 matches Ok(Some(p)) ==> {
            let raw = proof_text(s.ws()).0;
            &&& p.raw == raw
            &&& p.tree is Some
            &&& proof_tree(nested(raw, s.sig)).0 == Ok::<ProofTreeM, ErrorM>(p.tree->0)
            &&& proof_tree(nested(raw, s.sig)).1.ws().eof()
            &&& skeleton(s).1 == proof_text(s.ws()).1
        },
        diff_skeleton(s).0 matches Ok(Some(p)) ==> p.raw == proof_text(s.ws()).0 && p.tree is None
            && diff_proof(nested(p.raw, s.sig)).0 is Ok,
        (dashed_word(s.ws()) matches Some(w) && (w == "sorry"@ || w == "simplify"@ || w == "solve"@
            || w == "contradiction"@ || w == "induction"@ || w == "INVALIDATED"@ || w
            == "UNFINISHABLE"@ || w == "by"@ || w == "SOLVED"@)) ==> !(skeleton(s).0 matches Ok(
            None,
        )),
        dashed_word(s.ws()) is None ==> skeleton(s).0 == Ok::<Option<SkeletonM>, ErrorM>(None)
            && diff_skeleton(s).0 == Ok::<Option<SkeletonM>, ErrorM>(None),
{
    reveal(skeleton);
    reveal(diff_skeleton);
    let w = crate::proofs::proof_starters();
    assert(w[0] == "sorry"@ && w[1] == "simplify"@ && w[2] == "solve"@ && w[3] == "contradiction"@
        && w[4] == "induction"@ && w[5] == "INVALIDATED"@ && w[6] == "UNFINISHABLE"@ && w[7]
        == "by"@ && w[8] == "SOLVED"@);
}

/// What a goal is: the goal between the parentheses behind `solve`.
pub proof fn law_goals_in_parentheses(s: PS)
    ensures
        parens_goal(s).0 matches Ok(g) ==> s.punct("("@).0 && goal(s.punct("("@).1).0 == Ok::<
            GoalM,
            ErrorM,
        >(g),
{
    reveal(parens_goal);
}

/// `a ⊏ b` asks whether `a` is a subterm of `b`.
pub proof fn law_subterm_goals(s: PS, a: TermM, e: PS, b: TermM, f: PS)
    requires
        inside(e),
        term(s) == (Ok::<TermM, ErrorM>(a), e),
        one_of(e, "<<"@, "⊏"@),
        term(behind(e, "<<"@, "⊏"@)) == (Ok::<TermM, ErrorM>(b), f),
    ensures
        goal(s) == (Ok::<GoalM, ErrorM>(GoalM::Subterm(a, b)), f),
{
    reveal(goal);
    reveal(subterm_goal);
    reveal(subterm_head);
    lemma_one_of(e, "<<"@, "⊏"@);
}

/// A fact, `▶`, an index and a point in time ask where that premise comes from.
pub proof fn law_premise_goals(s: PS)
    ensures
        premise_goal(s).0 matches Ok(Some(g)) ==> {
            let f = fact(s);
            let o = f.1.ws().eat("▶"@);
            let i = subscript_at(o.1.src, o.1.at);
            &&& g is Premise
            &&& f.0 == Ok::<FactM, ErrorM>(g->Premise_1)
            &&& o.0
            &&& i matches Some((n, e)) && g->Premise_0.index == n && nodevar(o.1.to(e)).0 == Ok::<
                VarM,
                ErrorM,
            >(g->Premise_0.node)
        },
{
    reveal(premise_goal);
    reveal(premise_head);
    reveal(attempted);
}

/// A fact, `@` and a point in time ask where that action comes from.
pub proof fn law_action_goals(s: PS)
    ensures
        action_goal(s).0 matches Ok(Some(g)) ==> {
            let f = fact(s);
            &&& g is Action
            &&& f.0 == Ok::<FactM, ErrorM>(g->Action_1)
            &&& f.1.punct("@"@).0
            &&& nodevar(f.1.punct("@"@).1).0 == Ok::<VarM, ErrorM>(g->Action_0)
        },
{
    reveal(action_goal);
    reveal(action_head);
    reveal(attempted);
}

/// Two conclusions with `~~>` between them: the first leads to the second.
pub proof fn law_chain_goals(s: PS)
    ensures
        chain_goal(s).0 matches Ok(Some(g)) ==> {
            let c = node_index(s);
            &&& g is Chain
            &&& c.0 == Ok::<NodeIndexM, ErrorM>(g->Chain_0)
            &&& c.1.punct("~~>"@).0
            &&& node_index(c.1.punct("~~>"@).1).0 == Ok::<NodeIndexM, ErrorM>(g->Chain_1)
        },
        node_index(s).0 matches Ok(n) ==> {
            let o = s.punct("("@);
            let v = nodevar(o.1);
            &&& o.0
            &&& v.0 == Ok::<VarM, ErrorM>(n.node)
            &&& v.1.punct(","@).0
            &&& v.1.punct(","@).1.natural().0 == Some(n.index)
        },
{
    reveal(chain_goal);
    reveal(chain_head);
    reveal(node_index);
    reveal(attempted);
}

/// `splitEqs(n)` asks to split the equations of that number.
pub proof fn law_split_goals(s: PS)
    ensures
        split_goal(s).0 matches Ok(g) ==> {
            let o = s.kw("splitEqs"@).1.punct("("@);
            &&& s.kw("splitEqs"@).0 && o.0
            &&& g is Split
            &&& o.1.natural().0 matches Some(n) && (n <= i64::MAX ==> g->Split_0 == n)
        },
        split_goal(s).0 is Ok ==> split_or_disj(s) == split_goal(s),
        split_goal(s).0 is Err ==> split_or_disj(s) == disj_goal(split_goal(s).1.to(s.at)),
{
    reveal(split_goal);
    reveal(split_or_disj);
    reveal(attempted);
}

/// Formulas with `∥` between them are the alternatives of a goal, in their
/// order.
pub proof fn law_goals_with_alternatives(s: PS, acc: Seq<FormulaM>, f: FormulaM, e: PS)
    requires
        inside(s),
        reads(s, formula(s), f, e),
    ensures
        e.punct("\u{2225}"@).0 ==> more_alternatives(s, acc) == more_alternatives(
            e.punct("\u{2225}"@).1,
            acc.push(f),
        ),
        !e.punct("\u{2225}"@).0 ==> more_alternatives(s, acc).0 == Ok::<Seq<FormulaM>, ErrorM>(
            acc.push(f),
        ),
        disj_goal(s).0 matches Ok(g) ==> g is Disj && more_alternatives(s, Seq::empty()).0 == Ok::<
            Seq<FormulaM>,
            ErrorM,
        >(g->Disj_0),
{
    reveal(disj_goal);
}

/// The kinds of goals are tried one behind the other: subterms, premises,
/// actions, chains, splits and alternatives.
pub proof fn law_kinds_of_goals(s: PS)
    ensures
        ({
            let a = subterm_goal(s);
            let b = premise_goal(a.1);
            let c = action_goal(b.1);
            let d = chain_goal(c.1);
            &&& a.0 matches Ok(Some(g)) ==> goal(s) == (Ok::<GoalM, ErrorM>(g), a.1)
            &&& a.0 == Ok::<Option<GoalM>, ErrorM>(None) ==> {
                &&& b.0 matches Ok(Some(g)) ==> goal(s) == (Ok::<GoalM, ErrorM>(g), b.1)
                &&& b.0 == Ok::<Option<GoalM>, ErrorM>(None) ==> {
                    &&& c.0 matches Ok(Some(g)) ==> goal(s) == (Ok::<GoalM, ErrorM>(g), c.1)
                    &&& c.0 == Ok::<Option<GoalM>, ErrorM>(None) ==> {
                        &&& d.0 matches Ok(Some(g)) ==> goal(s) == (Ok::<GoalM, ErrorM>(g), d.1)
                        &&& d.0 == Ok::<Option<GoalM>, ErrorM>(None) ==> goal(s) == split_or_disj(
                            d.1,
                        )
                    }
                }
            }
        }),
{
    reveal(goal);
}

/// A point in time is a variable of that sort, or one whose sort is not
/// written; its name and its index are kept.
pub proof fn law_points_in_goals(s: PS)
    ensures
        nodevar(s).0 matches Ok(v) ==> v.sort == LSort::Node && v.typ is None && (variable(
            s,
        ).0 matches Ok(w) && w.name == v.name && w.idx == v.idx && (w.sort == LSort::Node || w.sort
            == LSort::Msg)),
{
    reveal(nodevar);
}

} // verus!
