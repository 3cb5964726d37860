//! What rules do.

use crate::ast::{FactM, FormulaM, LSort, RuleAttrM, RuleM, TermM, VarM};
use crate::attrs::{
    between, bracketed_value, closing, color, color_of, first_of, foreign_attr, hex_end,
    more_rule_attrs, quoted_value, rule_attr, rule_attrs,
};
use crate::error::ErrorM;
use crate::facts::{fact, fact_list};
use crate::formulas::formula;
use crate::laws::tokens::{inside, law_one_word_at_a_place, lemma_spaced, reads, word, written};
use crate::rules::{
    action, action_list, arrow, bare_premises, bracket_facts, definitions, embedded, first_taken,
    let_block, let_variable, modulo, more_actions, more_variants, one_sided_rule, restr_name, rule,
    rule_body, rule_guard, rule_head, rule_index, rule_name, rule_premises, rule_variant,
    rule_variants, with_sides,
};
use crate::state::{group_steps, PS};
use crate::subst::{facts_under, formulas_under, subst_facts, subst_term};
use crate::terms::term;
use crate::text::alphanumeric;
use crate::tokens::foreign_at;
use crate::vars::{suffixed, var_head};
use vstd::prelude::*;

verus! {

broadcast use {group_steps, crate::tokens::group_lexer};

/// A rule has the name and the attributes of its head, and the facts that stand
/// before, in and behind its arrow, each under the definitions of its `let`.
pub proof fn law_rules_are_as_written(s: PS, start: Option<usize>)
    ensures
        rule_body(s, start).0 matches Ok(r) ==> {
            let h = rule_head(s, start);
            let p = rule_premises(h.1);
            let a = arrow(p.1);
            let c = bracket_facts(a.1);
            &&& h.0 is Ok && p.0 is Ok && a.0 is Ok && c.0 is Ok
            &&& rule_body(s, start).1 == c.1
            &&& ({
                let (m, name, attrs) = h.0->Ok_0;
                let (bs, ps) = p.0->Ok_0;
                let (acts, rstrs) = a.0->Ok_0;
                &&& r.modulo == m && r.name == name && r.attributes == attrs
                &&& r.premises == facts_under(ps, bs)
                &&& r.actions == facts_under(acts, bs)
                &&& r.conclusions == facts_under(c.0->Ok_0, bs)
                &&& r.embedded_restrictions == formulas_under(rstrs, bs)
                &&& r.variants.len() == 0 && r.left_right is None
            })
        },
{
    reveal(rule_body);
}

/// Without a `let` the facts of a rule are those that are written.
pub proof fn law_rules_without_definitions(s: PS, start: Option<usize>)
    ensures
        rule_body(s, start).0 matches Ok(r) ==> {
            let h = rule_head(s, start);
            let p = bracket_facts(h.1.ws());
            let a = arrow(p.1);
            !h.1.kw("let"@).0 ==> {
                &&& p.0 == Ok::<Seq<FactM>, ErrorM>(r.premises)
                &&& a.0 == Ok::<(Seq<FactM>, Seq<FormulaM>), ErrorM>(
                    (r.actions, r.embedded_restrictions),
                )
                &&& bracket_facts(a.1).0 == Ok::<Seq<FactM>, ErrorM>(r.conclusions)
            }
        },
{
    reveal(rule_body);
    reveal(rule_premises);
    reveal(bare_premises);
}

/// The head of a rule: the theory it is written modulo, its name, its
/// attributes and a colon.
pub proof fn law_heads_of_rules(s: PS, start: Option<usize>)
    ensures
        rule_head(s, start).0 matches Ok((m, name, attrs)) ==> {
            let n = modulo(s);
            let e = n.1.name();
            let a = rule_attrs(e.1);
            &&& m == n.0
            &&& e.0 == Some(name)
            &&& a.0 == Ok::<Seq<RuleAttrM>, ErrorM>(attrs)
            &&& a.1.punct(":"@) == (true, rule_head(s, start).1)
        },
{
    reveal(rule_head);
    reveal(rule_name);
    reveal(crate::rules::rule_colon);
    reveal(crate::rules::no_rule_name);
}

/// `(modulo E)` names a theory, and nothing else does.
pub proof fn law_theories_modulo(s: PS)
    ensures
        modulo(s).0 matches Some(m) ==> {
            let w = s.punct("("@).1.kw("modulo"@);
            &&& s.punct("("@).0 && w.0
            &&& w.1.ident().0 == Ok::<Seq<char>, ErrorM>(m)
            &&& w.1.ident().1.punct(")"@) == (true, modulo(s).1)
        },
        !s.punct("("@).0 ==> modulo(s).0 is None,
        ({
            let w = s.punct("("@).1.kw("modulo"@);
            s.punct("("@).0 && w.0 && w.1.ident().0 is Ok && w.1.ident().1.punct(")"@).0
        }) ==> modulo(s).0 is Some,
{
    reveal(modulo);
}

/// The premises of a rule with a `let` are those behind its `in`.
pub proof fn law_premises_behind_definitions(s: PS)
    ensures
        rule_premises(s).0 matches Ok((bs, ps)) ==> {
            &&& s.kw("let"@).0 ==> let_block(s).0 == Ok::<Seq<(TermM, TermM)>, ErrorM>(bs)
                && bracket_facts(let_block(s).1).0 == Ok::<Seq<FactM>, ErrorM>(ps)
            &&& !s.kw("let"@).0 ==> bs.len() == 0 && bracket_facts(s.ws()).0 == Ok::<
                Seq<FactM>,
                ErrorM,
            >(ps)
        },
{
    reveal(rule_premises);
    reveal(bare_premises);
}

/// Whether a definition is read at `s`: a variable, `=` and a term.
#[verifier::opaque]
pub open spec fn definition_at(s: PS, v: VarM, t: TermM, e: PS) -> bool {
    let h = let_variable(s.ws());
    let q = h.1.punct("="@);
    &&& inside(s)
    &&& !s.ws().kw("in"@).0
    &&& reads(s.ws(), h, Some(v), h.1)
    &&& q.0
    &&& reads(q.1, term(q.1), t, e)
}

proof fn lemma_definition_step(s: PS, acc: Seq<(TermM, TermM)>, v: VarM, t: TermM, e: PS)
    requires
        definition_at(s, v, t, e),
    ensures
        definitions(s, acc) == definitions(e, acc.push((TermM::Var(v), t))),
{
    reveal(definition_at);
}

/// Whether definitions are read one behind the other from `at[0]` on, up to the
/// word `in`.
pub open spec fn definitions_at(at: Seq<PS>, vs: Seq<VarM>, ts: Seq<TermM>) -> bool {
    &&& 0 < vs.len() == ts.len() == at.len() - 1
    &&& forall|i: int| 0 <= i < vs.len() ==> definition_at(#[trigger] at[i], vs[i], ts[i], at[i + 1])
    &&& inside(at.last())
    &&& at.last().kw("in"@).0
}

pub open spec fn pairs(vs: Seq<VarM>, ts: Seq<TermM>) -> Seq<(TermM, TermM)> {
    Seq::new(vs.len(), |i: int| (TermM::Var(vs[i]), ts[i]))
}

proof fn lemma_definitions_at(at: Seq<PS>, vs: Seq<VarM>, ts: Seq<TermM>, k: int)
    requires
        definitions_at(at, vs, ts),
        0 <= k <= vs.len(),
    ensures
        definitions(at[k], pairs(vs, ts).take(k)) == (
            Ok::<Seq<(TermM, TermM)>, ErrorM>(pairs(vs, ts)),
            at.last().kw("in"@).1,
        ),
    decreases vs.len() - k,
{
    let all = pairs(vs, ts);
    if k < vs.len() {
        assert(definition_at(at[k], vs[k], ts[k], at[k + 1]));
        lemma_definition_step(at[k], all.take(k), vs[k], ts[k], at[k + 1]);
        assert(all.take(k).push(all[k]) =~= all.take(k + 1));
        lemma_definitions_at(at, vs, ts, k + 1);
    } else {
        assert(all.take(k) =~= all);
        lemma_spaced(at[k], "in"@);
    }
}

/// The definitions of a `let` block are those between `let` and `in`, in their
/// order.
pub proof fn law_definitions_of_rules(s: PS, at: Seq<PS>, vs: Seq<VarM>, ts: Seq<TermM>)
    requires
        s.kw("let"@).0,
        definitions_at(at, vs, ts),
        at[0] == s.kw("let"@).1,
    ensures
        let_block(s) == (
            Ok::<Seq<(TermM, TermM)>, ErrorM>(pairs(vs, ts)),
            at.last().kw("in"@).1,
        ),
{
    reveal(let_block);
    lemma_definitions_at(at, vs, ts, 0);
    assert(pairs(vs, ts).take(0) =~= Seq::empty());
}

/// A `let` of a rule defines variables for messages and numbers only.
pub proof fn law_defined_variables(s: PS)
    ensures
        let_variable(s).0 matches Ok(Some(v)) ==> {
            &&& v.sort == LSort::Msg || v.sort == LSort::Nat
            &&& var_head(s).0 matches Ok(Some(h)) && suffixed(var_head(s).1, h).0 == Ok::<
                VarM,
                ErrorM,
            >(v)
        },
{
    reveal(let_variable);
}

/// The facts in brackets are those of the list between them.
pub proof fn law_facts_in_brackets(s: PS)
    ensures
        bracket_facts(s).0 is Ok ==> s.punct("["@).0 && bracket_facts(s) == fact_list(
            s.punct("["@).1,
            "]"@,
        ),
        s.punct("["@).0 ==> bracket_facts(s) == fact_list(s.punct("["@).1, "]"@),
{
    reveal(bracket_facts);
}

/// The plain arrow has neither actions nor restrictions.
pub proof fn law_arrows(s: PS)
    requires
        inside(s),
    ensures
        s.punct("-->"@).0 ==> arrow(s) == (
            Ok::<(Seq<FactM>, Seq<FormulaM>), ErrorM>((Seq::empty(), Seq::empty())),
            s.punct("-->"@).1,
        ),
        !s.punct("-->"@).0 && s.punct("--["@).0 ==> arrow(s) == action_list(s.punct("--["@).1),
        !s.punct("-->"@).0 && !s.punct("--["@).0 ==> arrow(s).0 is Err,
        s.punct("]->"@).0 ==> action_list(s) == (
            Ok::<(Seq<FactM>, Seq<FormulaM>), ErrorM>((Seq::empty(), Seq::empty())),
            s.punct("]->"@).1,
        ),
        !s.punct("]->"@).0 ==> action_list(s) == more_actions(
            s.ws(),
            Seq::empty(),
            Seq::empty(),
        ),
{
    reveal(arrow);
    reveal(action_list);
    lemma_spaced(s, "-->"@);
    lemma_spaced(s, "--["@);
    lemma_spaced(s, "]->"@);
}

/// What stands in the arrow is an action, and behind `_restrict` a restriction;
/// each is put behind those of its kind.
pub proof fn law_actions_and_restrictions(s: PS, acts: Seq<FactM>, rstrs: Seq<FormulaM>)
    ensures
        action(s, acts, rstrs).0 matches Ok((a, r)) ==> {
            let o = s.kw("_restrict"@).1.punct("("@);
            &&& s.kw("_restrict"@).0 ==> a == acts && o.0 && formula(o.1).0 is Ok && r
                == rstrs.push(formula(o.1).0->Ok_0) && formula(o.1).1.punct(")"@).0
            &&& !s.kw("_restrict"@).0 ==> r == rstrs && fact(s).0 is Ok && a == acts.push(
                fact(s).0->Ok_0,
            )
        },
{
    reveal(action);
    reveal(embedded);
}

/// The actions of an arrow come one behind the other with commas between them,
/// up to the closing of the arrow.
pub proof fn law_actions_in_order(
    s: PS,
    acts: Seq<FactM>,
    rstrs: Seq<FormulaM>,
    a: Seq<FactM>,
    r: Seq<FormulaM>,
    e: PS,
)
    requires
        inside(s),
        reads(s, action(s, acts, rstrs), (a, r), e),
    ensures
        e.punct(","@).0 && !e.punct(","@).1.punct("]->"@).0 ==> more_actions(s, acts, rstrs)
            == more_actions(e.punct(","@).1, a, r),
        !e.punct(","@).0 && e.punct("]->"@).0 ==> more_actions(s, acts, rstrs) == (
            Ok::<(Seq<FactM>, Seq<FormulaM>), ErrorM>((a, r)),
            e.punct("]->"@).1,
        ),
{
    lemma_spaced(e, ","@);
    lemma_spaced(e, "]->"@);
}

/// A rule with the word `left` behind it has two sides: the rule behind `left`
/// is the left one, the rule behind `right` the right one.
pub proof fn law_sides_of_rules(s: PS, r: RuleM, e: PS, a: RuleM, f: PS, b: RuleM, g: PS)
    requires
        reads(s, one_sided_rule(s), r, e),
        e.kw("left"@).0,
        reads(e.kw("left"@).1, rule(e.kw("left"@).1), a, f),
        f.kw("right"@).0,
        rule(f.kw("right"@).1) == (Ok::<RuleM, ErrorM>(b), g),
    ensures
        rule(s).1 == g,
        rule(s).0 matches Ok(x) && x.left_right is Some && *x.left_right->0.left == a
            && *x.left_right->0.right == b && x == (RuleM { left_right: x.left_right, ..r }),
{
    reveal(with_sides);
}

/// A rule without the word `left` behind it has no sides.
pub proof fn law_rules_with_one_side(s: PS, r: RuleM, e: PS)
    requires
        reads(s, one_sided_rule(s), r, e),
        !e.kw("left"@).0,
    ensures
        rule(s) == (Ok::<RuleM, ErrorM>(r), e),
{
}

/// The variants of a rule are the rules behind the word `variants`.
pub proof fn law_variants(s: PS)
    ensures
        one_sided_rule(s).0 matches Ok(r) ==> {
            let b = rule_body(s.ws().kw("rule"@).1, Some(s.ws().offset()));
            &&& s.ws().kw("rule"@).0
            &&& b.0 is Ok
            &&& r == (RuleM { variants: r.variants, ..b.0->Ok_0 })
            &&& rule_variants(b.1).0 == Ok::<Seq<RuleM>, ErrorM>(r.variants)
        },
        !s.kw("variants"@).0 ==> rule_variants(s).0 == Ok::<Seq<RuleM>, ErrorM>(Seq::empty()),
        s.kw("variants"@).0 ==> rule_variants(s) == more_variants(
            s.kw("variants"@).1,
            Seq::empty(),
        ),
{
    reveal(one_sided_rule);
    reveal(rule_variants);
}

/// Variants come one behind the other with commas between them.
pub proof fn law_variants_in_order(s: PS, acc: Seq<RuleM>, r: RuleM, e: PS)
    requires
        inside(s),
        reads(s, rule_variant(s), r, e),
    ensures
        e.punct(","@).0 ==> more_variants(s, acc) == more_variants(e.punct(","@).1, acc.push(r)),
        !e.punct(","@).0 ==> more_variants(s, acc) == (
            Ok::<Seq<RuleM>, ErrorM>(acc.push(r)),
            e.ws(),
        ),
{
    lemma_spaced(e, ","@);
}

/// A rule whose name is new is taken, and then a different rule of that name is
/// refused; rules are apart where they differ in more than the theory they are
/// written modulo.
pub proof fn law_rule_names(s: PS, r: RuleM, q: RuleM)
    requires
        !s.place.is_diff,
        forall|i: int| 0 <= i < s.st.seen.rules.len() ==> (#[trigger] s.st.seen.rules[i]).name != r.name,
        r.embedded_restrictions.len() == 0,
        q.embedded_restrictions.len() == 0,
        q.name == r.name,
    ensures
        rule_guard(s, r).0 is Ok,
        rule_guard(rule_guard(s, r).1, q).0 is Err <==> q != (RuleM { modulo: q.modulo, ..r }),
{
    reveal(rule_guard);
    lemma_no_rule(s.st.seen.rules, r.name, 0);
    let rules = s.st.seen.rules.push(r);
    lemma_new_rule(s.st.seen.rules, r, 0);
}

proof fn lemma_no_rule(rules: Seq<RuleM>, name: Seq<char>, i: int)
    requires
        0 <= i,
        forall|j: int| 0 <= j < rules.len() ==> (#[trigger] rules[j]).name != name,
    ensures
        rule_index(rules, name, i) is None,
    decreases rules.len() - i,
{
    if i < rules.len() {
        lemma_no_rule(rules, name, i + 1);
    }
}

proof fn lemma_new_rule(rules: Seq<RuleM>, r: RuleM, i: int)
    requires
        0 <= i <= rules.len(),
        forall|j: int| 0 <= j < rules.len() ==> (#[trigger] rules[j]).name != r.name,
    ensures
        rule_index(rules.push(r), r.name, i) == Some(rules.len() as int),
    decreases rules.len() - i,
{
    if i < rules.len() {
        assert(rules.push(r)[i] == rules[i]);
        lemma_new_rule(rules, r, i + 1);
    } else {
        assert(rules.push(r)[i] == r);
    }
}

/// A rule is refused where the name of one of its restrictions is taken.
pub proof fn law_names_of_embedded_restrictions(s: PS, r: RuleM, i: int)
    requires
        !s.place.is_diff,
        1 <= i <= r.embedded_restrictions.len(),
        s.st.seen.restriction_names.contains(
            "Restr_"@ + r.name + "_"@ + crate::text::decimal(i as nat),
        ),
    ensures
        rule_guard(s, r).0 is Err,
{
    reveal(rule_guard);
    lemma_first_taken(
        s.st.seen.restriction_names,
        r.name,
        1,
        r.embedded_restrictions.len() as int,
        i,
    );
}

proof fn lemma_first_taken(names: Seq<Seq<char>>, name: Seq<char>, from: int, n: int, i: int)
    requires
        from <= i <= n,
        names.contains(restr_name(name, i)),
    ensures
        first_taken(names, name, from, n) is Some,
    decreases n - from,
{
    if from < i && !names.contains(restr_name(name, from)) {
        lemma_first_taken(names, name, from + 1, n, i);
    }
}

/// The term with the value of the variable `k` in its place, everywhere.
pub open spec fn instance(t: TermM, k: VarM, val: TermM) -> TermM
    decreases t,
{
    match t {
        TermM::Var(v) => if v == k {
            val
        } else {
            t
        },
        TermM::App(f, xs) => TermM::App(
            f,
            Seq::new(
                xs.len(),
                |i: int|
                    if 0 <= i < xs.len() {
                        instance(xs[i], k, val)
                    } else {
                        arbitrary()
                    },
            ),
        ),
        TermM::Pair(xs) => TermM::Pair(
            Seq::new(
                xs.len(),
                |i: int|
                    if 0 <= i < xs.len() {
                        instance(xs[i], k, val)
                    } else {
                        arbitrary()
                    },
            ),
        ),
        TermM::AlgApp(f, a, b) => TermM::AlgApp(
            f,
            Box::new(instance(*a, k, val)),
            Box::new(instance(*b, k, val)),
        ),
        TermM::Diff(a, b) => TermM::Diff(
            Box::new(instance(*a, k, val)),
            Box::new(instance(*b, k, val)),
        ),
        TermM::BinOp(op, a, b) => TermM::BinOp(
            op,
            Box::new(instance(*a, k, val)),
            Box::new(instance(*b, k, val)),
        ),
        TermM::PatMatch(a) => TermM::PatMatch(Box::new(instance(*a, k, val))),
        _ => t,
    }
}

/// A definition puts its value in the place of its variable, everywhere in a
/// term, and changes nothing else.
pub proof fn law_definitions_in_terms(t: TermM, k: VarM, val: TermM)
    ensures
        subst_term(t, TermM::Var(k), val) == instance(t, k, val),
    decreases t,
{
    match t {
        TermM::App(f, xs) => {
            assert forall|i: int| 0 <= i < xs.len() implies subst_term(
                #[trigger] xs[i],
                TermM::Var(k),
                val,
            ) == instance(xs[i], k, val) by {
                law_definitions_in_terms(xs[i], k, val);
            }
            assert(subst_term(t, TermM::Var(k), val)->App_1 =~= instance(t, k, val)->App_1);
        },
        TermM::Pair(xs) => {
            assert forall|i: int| 0 <= i < xs.len() implies subst_term(
                #[trigger] xs[i],
                TermM::Var(k),
                val,
            ) == instance(xs[i], k, val) by {
                law_definitions_in_terms(xs[i], k, val);
            }
            assert(subst_term(t, TermM::Var(k), val)->Pair_0 =~= instance(t, k, val)->Pair_0);
        },
        TermM::AlgApp(f, a, b) => {
            law_definitions_in_terms(*a, k, val);
            law_definitions_in_terms(*b, k, val);
        },
        TermM::Diff(a, b) => {
            law_definitions_in_terms(*a, k, val);
            law_definitions_in_terms(*b, k, val);
        },
        TermM::BinOp(op, a, b) => {
            law_definitions_in_terms(*a, k, val);
            law_definitions_in_terms(*b, k, val);
        },
        TermM::PatMatch(a) => {
            law_definitions_in_terms(*a, k, val);
        },
        _ => {},
    }
}

/// A definition changes the arguments of facts only: how many there are, their
/// names, whether they are persistent and their annotations stay.
pub proof fn law_definitions_in_facts(fs: Seq<FactM>, k: VarM, val: TermM)
    ensures
        ({
            let gs = facts_under(fs, seq![(TermM::Var(k), val)]);
            &&& gs.len() == fs.len()
            &&& forall|i: int|
                0 <= i < fs.len() ==> {
                    let (f, g) = (fs[i], #[trigger] gs[i]);
                    &&& g.name == f.name && g.persistent == f.persistent && g.annotations
                        == f.annotations
                    &&& g.args.len() == f.args.len()
                    &&& forall|j: int|
                        0 <= j < f.args.len() ==> #[trigger] g.args[j] == instance(
                            f.args[j],
                            k,
                            val,
                        )
                }
        }),
{
    let bs = seq![(TermM::Var(k), val)];
    let gs = subst_facts(fs, TermM::Var(k), val);
    assert(bs.drop_last().len() == 0);
    assert(facts_under(gs, bs.drop_last()) == gs);
    assert(facts_under(fs, bs) == gs);
    assert forall|i: int, j: int|
        0 <= i < fs.len() && 0 <= j < fs[i].args.len() implies #[trigger] gs[i].args[j] == instance(
        fs[i].args[j],
        k,
        val,
    ) by {
        law_definitions_in_terms(fs[i].args[j], k, val);
    }
}

/// The definitions of a rule are put in from the last to the first, so that a
/// value may use what is defined before it.
pub proof fn law_later_definitions_first(fs: Seq<FactM>, bs: Seq<(TermM, TermM)>, d: (TermM, TermM))
    ensures
        facts_under(fs, bs.push(d)) == facts_under(subst_facts(fs, d.0, d.1), bs),
        facts_under(fs, Seq::empty()) == fs,
{
    assert(bs.push(d).drop_last() =~= bs);
}

spec fn rule_attr_words() -> Seq<Seq<char>> {
    seq![
        "colour"@,
        "color"@,
        "process"@,
        "no_derivcheck"@,
        "role"@,
        "issapicrule"@,
    ]
}

/// No two of these words are read at one place.
proof fn lemma_one_rule_attr_word(s: PS)
    requires
        inside(s),
    ensures
        forall|a: int, b: int|
            0 <= a < 6 && 0 <= b < 6 && a != b && (#[trigger] s.kw(rule_attr_words()[a])).0 ==> !(
            #[trigger] s.kw(rule_attr_words()[b])).0,
        rule_attr_words()[0] == "colour"@,
        rule_attr_words()[1] == "color"@,
        rule_attr_words()[2] == "process"@,
        rule_attr_words()[3] == "no_derivcheck"@,
        rule_attr_words()[4] == "role"@,
        rule_attr_words()[5] == "issapicrule"@,
{
    reveal(alphanumeric);
    reveal_strlit("colour");
    reveal_strlit("color");
    reveal_strlit("process");
    reveal_strlit("no_derivcheck");
    reveal_strlit("role");
    reveal_strlit("issapicrule");
    let w = rule_attr_words();
    assert(w[0] == "colour"@ && word(w[0]) && w[0].len() == 6);
    assert(w[1] == "color"@ && word(w[1]) && w[1].len() == 5);
    assert(w[2] == "process"@ && word(w[2]) && w[2].len() == 7);
    assert(w[3] == "no_derivcheck"@ && word(w[3]) && w[3].len() == 13);
    assert(w[4] == "role"@ && word(w[4]) && w[4].len() == 4);
    assert(w[5] == "issapicrule"@ && word(w[5]) && w[5].len() == 11);
    assert forall|a: int, b: int|
        0 <= a < 6 && 0 <= b < 6 && a != b && (#[trigger] s.kw(w[a])).0 implies !(
    #[trigger] s.kw(w[b])).0 by {
        if s.kw(w[b]).0 {
            law_one_word_at_a_place(s, w[a], w[b]);
        }
    }
}

/// What the words for attributes of rules mean.
pub proof fn law_attributes_of_rules(s: PS)
    requires
        inside(s),
    ensures
        s.kw("colour"@).0 ==> (rule_attr(s).0 matches Ok(Some(v)) ==> {
            let q = s.kw("colour"@).1.punct("="@);
            q.0 && color(q.1).0 is Ok && v == seq![RuleAttrM::Color(color(q.1).0->Ok_0)]
        }),
        s.kw("color"@).0 ==> (rule_attr(s).0 matches Ok(Some(v)) ==> {
            let q = s.kw("color"@).1.punct("="@);
            q.0 && color(q.1).0 is Ok && v == seq![RuleAttrM::Color(color(q.1).0->Ok_0)]
        }),
        s.kw("process"@).0 ==> (rule_attr(s).0 matches Ok(Some(v)) ==> v.len() == 0 && s.kw(
            "process"@,
        ).1.punct("="@).0),
        s.kw("no_derivcheck"@).0 ==> rule_attr(s).0 == Ok::<Option<Seq<RuleAttrM>>, ErrorM>(
            Some(seq![RuleAttrM::NoDerivCheck]),
        ),
        s.kw("role"@).0 ==> (rule_attr(s).0 matches Ok(Some(v)) ==> {
            let q = s.kw("role"@).1.punct("="@);
            q.0 && quoted_value(q.1).0 is Ok && v == seq![RuleAttrM::Role(
                quoted_value(q.1).0->Ok_0,
            )]
        }),
        s.kw("issapicrule"@).0 ==> rule_attr(s).0 == Ok::<Option<Seq<RuleAttrM>>, ErrorM>(
            Some(seq![RuleAttrM::IsSapicRule]),
        ),
        s.kw("role"@).0 || s.kw("colour"@).0 || s.kw("color"@).0 || s.kw("process"@).0 ==> !(
        rule_attr(s).0 matches Ok(None)),
{
    reveal(rule_attr);
    lemma_one_rule_attr_word(s);
    lemma_spaced(s, "colour"@);
    lemma_spaced(s, "color"@);
    lemma_spaced(s, "process"@);
    lemma_spaced(s, "no_derivcheck"@);
    lemma_spaced(s, "role"@);
    lemma_spaced(s, "issapicrule"@);
}

/// The attributes of a rule come in their order, with commas between them, and
/// none where there are no brackets.
pub proof fn law_rule_attributes_in_order(
    s: PS,
    acc: Seq<RuleAttrM>,
    v: Seq<RuleAttrM>,
    e: PS,
)
    requires
        inside(s),
    ensures
        rule_attr(s) == (Ok::<Option<Seq<RuleAttrM>>, ErrorM>(Some(v)), e) && s.past(e) && e.punct(
            ","@,
        ).0 ==> more_rule_attrs(s, acc) == more_rule_attrs(e.punct(","@).1, acc + v),
        rule_attr(s) == (Ok::<Option<Seq<RuleAttrM>>, ErrorM>(Some(v)), e) && s.past(e) && !e.punct(
            ","@,
        ).0 && e.punct("]"@).0 ==> more_rule_attrs(s, acc) == (
            Ok::<Seq<RuleAttrM>, ErrorM>(acc + v),
            e.punct("]"@).1,
        ),
        !s.punct("["@).0 ==> rule_attrs(s).0 == Ok::<Seq<RuleAttrM>, ErrorM>(Seq::empty()),
        s.punct("["@).0 ==> rule_attrs(s) == more_rule_attrs(s.punct("["@).1, Seq::empty()),
{
    reveal(rule_attrs);
    if s.past(e) {
        lemma_spaced(e, ","@);
        lemma_spaced(e, "]"@);
    }
}

/// A color is six hexadecimal digits, with or without a hash before them and
/// quotes around them.
pub proof fn law_colors(s: PS)
    requires
        inside(s),
    ensures
        color(s).0 matches Ok(c) ==> c.len() == 6 && forall|i: int|
            0 <= i < 6 ==> '0' <= #[trigger] c[i] <= '9' || 'a' <= c[i] <= 'f' || 'A' <= c[i]
                <= 'F',
{
    reveal(color);
    reveal(color_of);
    let s1 = s.ws().eat("'"@).1;
    let s2 = s1.eat("#"@).1;
    lemma_hex(s.src, s2.at);
    let e = hex_end(s.src, s2.at);
    let code = s.src.subrange(s2.at, e);
    assert forall|i: int| 0 <= i < code.len() implies '0' <= #[trigger] code[i] <= '9' || 'a'
        <= code[i] <= 'f' || 'A' <= code[i] <= 'F' by {
        assert(code[i] == s.src[s2.at + i]);
    }
}

proof fn lemma_hex(src: Seq<char>, i: int)
    requires
        0 <= i <= src.len(),
    ensures
        i <= hex_end(src, i) <= src.len(),
        forall|j: int|
            i <= j < hex_end(src, i) ==> '0' <= #[trigger] src[j] <= '9' || 'a' <= src[j] <= 'f'
                || 'A' <= src[j] <= 'F',
    decreases src.len() - i,
{
    if i < src.len() && crate::text::ascii_hex(src[i]) {
        lemma_hex(src, i + 1);
    }
}

/// An attribute of another tool keeps its name, and the value behind `=` where
/// there is one.
pub proof fn law_foreign_attributes(s: PS)
    ensures
        foreign_at(s.src, s.at) matches Some((name, e)) ==> {
            let q = s.to(e).punct("="@);
            &&& !q.0 ==> foreign_attr(s).0 == Ok::<Option<Seq<RuleAttrM>>, ErrorM>(
                Some(seq![RuleAttrM::External(name, None)]),
            )
            &&& q.0 && bracketed_value(q.1).0 is Ok ==> foreign_attr(s).0 == Ok::<
                Option<Seq<RuleAttrM>>,
                ErrorM,
            >(Some(seq![RuleAttrM::External(name, Some(bracketed_value(q.1).0->Ok_0))]))
        },
        foreign_at(s.src, s.at) is None ==> foreign_attr(s).0 == Ok::<
            Option<Seq<RuleAttrM>>,
            ErrorM,
        >(None),
{
    reveal(foreign_attr);
}

/// Brackets and quotes are closed by their partners, and nothing else opens a
/// value.
pub proof fn law_brackets(c: char)
    ensures
        closing(c) == (if c == '(' {
            Some(')')
        } else if c == '[' {
            Some(']')
        } else if c == '{' {
            Some('}')
        } else if c == '<' {
            Some('>')
        } else if c == '"' || c == '\'' || c == '|' {
            Some(c)
        } else {
            None
        }),
{
}

/// A value in brackets is what stands between them: it holds neither of the
/// two.
pub proof fn law_values_in_brackets(s: PS, l: char, r: char)
    requires
        inside(s),
    ensures
        between(s, l, r).0 matches Ok(v) ==> {
            &&& written(s.src, s.at, v.push(r))
            &&& forall|i: int| 0 <= i < v.len() ==> #[trigger] v[i] != l && v[i] != r
        },
{
    reveal(between);
    lemma_first_of(s.src, s.at, l, r);
    let e = first_of(s.src, s.at, l, r);
    let v = s.src.subrange(s.at, e);
    assert forall|i: int| 0 <= i < v.len() implies #[trigger] v[i] != l && v[i] != r by {
        assert(v[i] == s.src[s.at + i]);
    }
}

proof fn lemma_first_of(src: Seq<char>, i: int, l: char, r: char)
    requires
        0 <= i <= src.len(),
    ensures
        i <= first_of(src, i, l, r) <= src.len(),
        forall|j: int| i <= j < first_of(src, i, l, r) ==> #[trigger] src[j] != l && src[j] != r,
    decreases src.len() - i,
{
    if i < src.len() && src[i] != l && src[i] != r {
        lemma_first_of(src, i + 1, l, r);
    }
}

} // verus!
