//! The names that the items of a theory take, and which of them may stand together.

use crate::ast::{ItemM, LemmaM, PredicateM, RestrictionM, RuleM};
use crate::definitions::{admit_predicates, knowing_predicate, pred_key, predicate_again};
use crate::lemmas::{on_left, on_right, put_if};
use crate::rules::{first_taken, restr_name, rule_index, with_restr_names};
use crate::state::{PredKeyM, SeenM, PS};
use vstd::prelude::*;

verus! {

/// What identifies the predicates.
pub open spec fn keys_of(ps: Seq<PredicateM>) -> Seq<PredKeyM> {
    Seq::new(ps.len(), |i: int| pred_key(ps[i].fact))
}

/// Whether the rules are equal up to the theory they are written modulo.
pub open spec fn same_up_to_modulo(r: RuleM, q: RuleM) -> bool {
    (RuleM { modulo: q.modulo, ..r }) == q
}

/// Whether the lemma has a name that is free where the lemma belongs.
pub open spec fn lemma_fits(is_diff: bool, a: SeenM, l: LemmaM) -> bool {
    if is_diff {
        (on_left(l.attributes) ==> !a.diff_left_lemma_names.contains(l.name)) && (on_right(
            l.attributes,
        ) ==> !a.diff_right_lemma_names.contains(l.name))
    } else {
        !a.lemma_names.contains(l.name)
    }
}

/// Whether the rule is new or the same as the rule of its name, and the
/// restrictions in it have free names.
pub open spec fn rule_fits(a: SeenM, r: RuleM) -> bool {
    &&& forall|i: int|
        1 <= i <= r.embedded_restrictions.len() ==> !a.restriction_names.contains(
            #[trigger] restr_name(r.name, i),
        )
    &&& rule_index(a.rules, r.name, 0) matches Some(k) ==> same_up_to_modulo(a.rules[k], r)
}

/// Whether the item may stand behind items that have taken the names `a`.
#[verifier::opaque]
pub open spec fn fits(is_diff: bool, a: SeenM, x: ItemM) -> bool {
    match x {
        ItemM::Lemma(l) => lemma_fits(is_diff, a, l),
        ItemM::DiffLemma(l) => !a.diff_lemma_names.contains(l.name),
        ItemM::Restriction(r) => is_diff || r.attributes.len() > 0
            || !a.restriction_names.contains(r.name),
        ItemM::LegacyAxiom(r) => is_diff || r.attributes.len() > 0
            || !a.restriction_names.contains(r.name),
        ItemM::Rule(r) => is_diff || rule_fits(a, r),
        ItemM::Predicates(ps) => keys_of(ps).no_duplicates() && forall|i: int|
            0 <= i < ps.len() ==> !a.predicates.contains(#[trigger] keys_of(ps)[i]),
        _ => true,
    }
}

/// The names that are taken once the item stands.
#[verifier::opaque]
pub open spec fn noted(is_diff: bool, a: SeenM, x: ItemM) -> SeenM {
    match x {
        ItemM::Lemma(l) => SeenM {
            lemma_names: put_if(a.lemma_names, l.name, !is_diff),
            diff_left_lemma_names: put_if(
                a.diff_left_lemma_names,
                l.name,
                is_diff && on_left(l.attributes),
            ),
            diff_right_lemma_names: put_if(
                a.diff_right_lemma_names,
                l.name,
                is_diff && on_right(l.attributes),
            ),
            ..a
        },
        ItemM::DiffLemma(l) => SeenM { diff_lemma_names: a.diff_lemma_names.push(l.name), ..a },
        ItemM::Restriction(r) => SeenM {
            restriction_names: a.restriction_names.push(r.name),
            ..a
        },
        ItemM::LegacyAxiom(r) => SeenM {
            restriction_names: a.restriction_names.push(r.name),
            ..a
        },
        ItemM::Rule(r) => if is_diff {
            a
        } else {
            SeenM {
                rules: match rule_index(a.rules, r.name, 0) {
                    Some(_) => a.rules,
                    None => a.rules.push(r),
                },
                restriction_names: with_restr_names(
                    a.restriction_names,
                    r.name,
                    r.embedded_restrictions.len() as int,
                ),
                ..a
            }
        },
        ItemM::Predicates(ps) => SeenM { predicates: a.predicates + keys_of(ps), ..a },
        _ => a,
    }
}

/// Whether the item may stand behind what was seen in `s`, and `o` has seen it too.
pub open spec fn follows(s: PS, x: ItemM, o: PS) -> bool {
    fits(s.place.is_diff, s.st.seen, x) && o.st.seen == noted(s.place.is_diff, s.st.seen, x)
}

/// The names that are taken once the items stand.
pub open spec fn all_noted(is_diff: bool, a: SeenM, xs: Seq<ItemM>) -> SeenM
    decreases xs.len(),
{
    if xs.len() == 0 {
        a
    } else {
        noted(is_diff, all_noted(is_diff, a, xs.drop_last()), xs.last())
    }
}

/// Whether each item may stand behind those before it.
pub open spec fn all_fit(is_diff: bool, a: SeenM, xs: Seq<ItemM>) -> bool
    decreases xs.len(),
{
    xs.len() == 0 || (all_fit(is_diff, a, xs.drop_last()) && fits(
        is_diff,
        all_noted(is_diff, a, xs.drop_last()),
        xs.last(),
    ))
}

/// Whether the items may stand behind what was seen in `s`, and `o` has seen them too.
pub open spec fn all_follow(s: PS, xs: Seq<ItemM>, o: PS) -> bool {
    all_fit(s.place.is_diff, s.st.seen, xs) && o.st.seen == all_noted(
        s.place.is_diff,
        s.st.seen,
        xs,
    )
}

/// Items that fit behind items that fit.
pub proof fn lemma_all_follow(is_diff: bool, a: SeenM, xs: Seq<ItemM>, ys: Seq<ItemM>)
    ensures
        all_noted(is_diff, a, xs + ys) == all_noted(is_diff, all_noted(is_diff, a, xs), ys),
        all_fit(is_diff, a, xs) && all_fit(is_diff, all_noted(is_diff, a, xs), ys) ==> all_fit(
            is_diff,
            a,
            xs + ys,
        ),
    decreases ys.len(),
{
    if ys.len() == 0 {
        assert(xs + ys =~= xs);
    } else {
        lemma_all_follow(is_diff, a, xs, ys.drop_last());
        assert((xs + ys).drop_last() =~= xs + ys.drop_last());
        assert((xs + ys).last() == ys.last());
    }
}

/// One item that fits behind items that fit.
pub proof fn lemma_one_follows(is_diff: bool, a: SeenM, x: ItemM)
    ensures
        all_noted(is_diff, a, seq![x]) == noted(is_diff, a, x),
        all_fit(is_diff, a, seq![x]) == fits(is_diff, a, x),
{
    assert(seq![x].drop_last() =~= Seq::empty());
    assert(all_noted(is_diff, a, Seq::empty()) == a);
    assert(all_fit(is_diff, a, Seq::empty()));
}

/// Predicates that are admitted are new and differ from each other.
pub proof fn lemma_admitted(s: PS, ps: Seq<PredicateM>, i: int)
    requires
        0 <= i <= ps.len(),
        admit_predicates(s, ps, i).0 is Ok,
    ensures
        admit_predicates(s, ps, i).1.st.seen == (SeenM {
            predicates: s.st.seen.predicates + keys_of(ps).subrange(i, ps.len() as int),
            ..s.st.seen
        }),
        forall|j: int|
            i <= j < ps.len() ==> !s.st.seen.predicates.contains(#[trigger] keys_of(ps)[j]),
        forall|j: int, k: int|
            i <= j < k < ps.len() ==> #[trigger] keys_of(ps)[j] != #[trigger] keys_of(ps)[k],
    decreases ps.len() - i,
{
    reveal(predicate_again);
    let keys = keys_of(ps);
    if i == ps.len() {
        assert(s.st.seen.predicates + keys.subrange(i, i) =~= s.st.seen.predicates);
    } else {
        let s1 = knowing_predicate(s, keys[i]);
        lemma_admitted(s1, ps, i + 1);
        let held = s.st.seen.predicates;
        assert(held.push(keys[i]) + keys.subrange(i + 1, ps.len() as int) =~= held
            + keys.subrange(i, ps.len() as int));
        assert forall|j: int| i < j < ps.len() implies !held.contains(#[trigger] keys[j])
            && keys[i] != keys[j] by {
            assert(!held.push(keys[i]).contains(keys[j]));
            assert(held.push(keys[i])[held.len() as int] == keys[i]);
            if held.contains(keys[j]) {
                let m = choose|m: int| 0 <= m < held.len() && held[m] == keys[j];
                assert(held.push(keys[i])[m] == keys[j]);
            }
        }
    }
}

/// Whether the names that the item takes are among `a`.
pub open spec fn taken_by(is_diff: bool, a: SeenM, x: ItemM) -> bool {
    match x {
        ItemM::Lemma(l) => if is_diff {
            (on_left(l.attributes) ==> a.diff_left_lemma_names.contains(l.name)) && (on_right(
                l.attributes,
            ) ==> a.diff_right_lemma_names.contains(l.name))
        } else {
            a.lemma_names.contains(l.name)
        },
        ItemM::DiffLemma(l) => a.diff_lemma_names.contains(l.name),
        ItemM::Restriction(r) => a.restriction_names.contains(r.name),
        ItemM::LegacyAxiom(r) => a.restriction_names.contains(r.name),
        ItemM::Rule(r) => is_diff || ((forall|i: int|
            1 <= i <= r.embedded_restrictions.len() ==> a.restriction_names.contains(
                #[trigger] restr_name(r.name, i),
            )) && (rule_index(a.rules, r.name, 0) matches Some(k) && same_up_to_modulo(
            a.rules[k],
            r,
        ))),
        ItemM::Predicates(ps) => forall|i: int|
            0 <= i < ps.len() ==> a.predicates.contains(#[trigger] keys_of(ps)[i]),
        _ => true,
    }
}

/// Whether the restriction is of an item that takes a name for it.
pub open spec fn restriction_of(x: ItemM) -> Option<RestrictionM> {
    match x {
        ItemM::Restriction(r) => Some(r),
        ItemM::LegacyAxiom(r) => Some(r),
        _ => None,
    }
}

/// Whether `y` may stand behind `x`:
/// - lemmas have different names; in a theory of two systems, lemmas of the same side;
/// - lemmas about both systems have different names;
/// - a restriction that is not of one side has another name than the restrictions before it,
///   those that stand in rules among them;
/// - rules of one name are the same up to the theory they are written modulo;
/// - the restrictions in a rule have other names than the restrictions before it;
/// - predicates differ in name, number of arguments or persistence.
pub open spec fn apart(is_diff: bool, x: ItemM, y: ItemM) -> bool {
    &&& x matches ItemM::Lemma(l) ==> y matches ItemM::Lemma(m) ==> (l.name != m.name || (is_diff
        && !(on_left(l.attributes) && on_left(m.attributes)) && !(on_right(l.attributes)
        && on_right(m.attributes))))
    &&& x matches ItemM::DiffLemma(l) ==> y matches ItemM::DiffLemma(m) ==> l.name != m.name
    &&& restriction_of(x) matches Some(r) ==> restriction_of(y) matches Some(q) ==> (is_diff
        || q.attributes.len() > 0 || r.name != q.name)
    &&& x matches ItemM::Rule(r) ==> restriction_of(y) matches Some(q) ==> (is_diff
        || q.attributes.len() > 0 || forall|i: int|
        1 <= i <= r.embedded_restrictions.len() ==> #[trigger] restr_name(r.name, i) != q.name)
    &&& x matches ItemM::Rule(r) ==> y matches ItemM::Rule(q) ==> (is_diff || r.name != q.name
        || same_up_to_modulo(r, q))
    &&& restriction_of(x) matches Some(r) ==> y matches ItemM::Rule(q) ==> (is_diff || forall|i: int|
        1 <= i <= q.embedded_restrictions.len() ==> #[trigger] restr_name(q.name, i) != r.name)
    &&& x matches ItemM::Predicates(ps) ==> y matches ItemM::Predicates(qs) ==> forall|i: int, j: int|
        0 <= i < ps.len() && 0 <= j < qs.len() ==> #[trigger] keys_of(ps)[i]
            != #[trigger] keys_of(qs)[j]
}

/// Whether the names of the items are apart.
pub open spec fn names_apart(is_diff: bool, xs: Seq<ItemM>) -> bool {
    forall|i: int, j: int|
        0 <= i < j < xs.len() ==> apart(is_diff, #[trigger] xs[i], #[trigger] xs[j])
}

proof fn lemma_put(names: Seq<Seq<char>>, n: Seq<char>, m: Seq<char>)
    ensures
        names.push(n).contains(m) <==> names.contains(m) || m == n,
{
    let w = names.push(n);
    assert(w[names.len() as int] == n);
    if names.contains(m) {
        let k = choose|k: int| 0 <= k < names.len() && names[k] == m;
        assert(w[k] == m);
    }
    if w.contains(m) {
        let k = choose|k: int| 0 <= k < w.len() && w[k] == m;
        if k < names.len() {
            assert(names[k] == m);
        }
    }
}

proof fn lemma_restr_names(names: Seq<Seq<char>>, rule: Seq<char>, n: int)
    ensures
        forall|m: Seq<char>|
            names.contains(m) ==> #[trigger] with_restr_names(names, rule, n).contains(m),
        forall|i: int|
            1 <= i <= n ==> with_restr_names(names, rule, n).contains(
                #[trigger] restr_name(rule, i),
            ),
    decreases n,
{
    if n > 0 {
        lemma_restr_names(names, rule, n - 1);
        let u = with_restr_names(names, rule, n - 1);
        assert forall|m: Seq<char>| names.contains(m) implies #[trigger] with_restr_names(
            names,
            rule,
            n,
        ).contains(m) by {
            lemma_put(u, restr_name(rule, n), m);
            assert(u.contains(m));
        }
        assert forall|i: int| 1 <= i <= n implies with_restr_names(names, rule, n).contains(
            #[trigger] restr_name(rule, i),
        ) by {
            lemma_put(u, restr_name(rule, n), restr_name(rule, i));
        }
    }
}

proof fn lemma_rule_index(rules: Seq<RuleM>, name: Seq<char>, r: RuleM, i: int)
    requires
        0 <= i <= rules.len(),
    ensures
        rule_index(rules, name, i) matches Some(k) ==> i <= k < rules.len() && rules[k].name == name
            && rule_index(rules.push(r), name, i) == Some(k),
        rule_index(rules, name, i) is None && r.name == name ==> rule_index(rules.push(r), name, i)
            == Some(rules.len() as int),
    decreases rules.len() - i,
{
    if i < rules.len() {
        lemma_rule_index(rules, name, r, i + 1);
    } else {
        reveal_with_fuel(rule_index, 2);
    }
}

/// The restrictions that no name is taken of.
pub proof fn lemma_first_taken(names: Seq<Seq<char>>, rule: Seq<char>, i: int, n: int)
    requires
        1 <= i,
        first_taken(names, rule, i, n) is None,
    ensures
        forall|j: int| i <= j <= n ==> !names.contains(#[trigger] restr_name(rule, j)),
    decreases n - i + 1,
{
    if i <= n {
        lemma_first_taken(names, rule, i + 1, n);
    }
}

#[verifier::spinoff_prover]
proof fn lemma_takes(is_diff: bool, a: SeenM, x: ItemM)
    requires
        fits(is_diff, a, x),
    ensures
        taken_by(is_diff, noted(is_diff, a, x), x),
{
    reveal(fits);
    reveal(noted);
    match x {
        ItemM::Lemma(l) => {
            lemma_put(a.lemma_names, l.name, l.name);
            lemma_put(a.diff_left_lemma_names, l.name, l.name);
            lemma_put(a.diff_right_lemma_names, l.name, l.name);
        },
        ItemM::DiffLemma(l) => {
            lemma_put(a.diff_lemma_names, l.name, l.name);
        },
        ItemM::Restriction(r) => {
            lemma_put(a.restriction_names, r.name, r.name);
        },
        ItemM::LegacyAxiom(r) => {
            lemma_put(a.restriction_names, r.name, r.name);
        },
        ItemM::Rule(r) => {
            lemma_restr_names(
                a.restriction_names,
                r.name,
                r.embedded_restrictions.len() as int,
            );
            lemma_rule_index(a.rules, r.name, r, 0);
        },
        ItemM::Predicates(ps) => {
            let w = a.predicates + keys_of(ps);
            assert forall|i: int| 0 <= i < ps.len() implies w.contains(
                #[trigger] keys_of(ps)[i],
            ) by {
                assert(w[a.predicates.len() + i] == keys_of(ps)[i]);
            }
        },
        _ => {},
    }
}

proof fn lemma_still_named(names: Seq<Seq<char>>, n: Seq<char>)
    ensures
        forall|m: Seq<char>| names.contains(m) ==> #[trigger] names.push(n).contains(m),
{
    assert forall|m: Seq<char>| names.contains(m) implies #[trigger] names.push(n).contains(m) by {
        lemma_put(names, n, m);
    }
}

/// What is taken stays taken.
pub open spec fn grows(a: SeenM, b: SeenM) -> bool {
    &&& forall|m: Seq<char>| #[trigger]
        a.lemma_names.contains(m) ==> b.lemma_names.contains(m)
    &&& forall|m: Seq<char>| #[trigger]
        a.diff_left_lemma_names.contains(m) ==> b.diff_left_lemma_names.contains(m)
    &&& forall|m: Seq<char>| #[trigger]
        a.diff_right_lemma_names.contains(m) ==> b.diff_right_lemma_names.contains(m)
    &&& forall|m: Seq<char>| #[trigger]
        a.diff_lemma_names.contains(m) ==> b.diff_lemma_names.contains(m)
    &&& forall|m: Seq<char>| #[trigger]
        a.restriction_names.contains(m) ==> b.restriction_names.contains(m)
    &&& forall|k: PredKeyM| #[trigger] a.predicates.contains(k) ==> b.predicates.contains(k)
    &&& forall|n: Seq<char>| #[trigger]
        rule_index(a.rules, n, 0) matches Some(k) ==> rule_index(b.rules, n, 0) == Some(k)
            && b.rules[k] == a.rules[k]
}

#[verifier::spinoff_prover]
proof fn lemma_grows(is_diff: bool, a: SeenM, y: ItemM)
    ensures
        grows(a, noted(is_diff, a, y)),
{
    reveal(noted);
    let b = noted(is_diff, a, y);
    assert forall|n: Seq<char>| (#[trigger] rule_index(a.rules, n, 0)) matches Some(k) implies rule_index(
        b.rules,
        n,
        0,
    ) == rule_index(a.rules, n, 0) && b.rules[rule_index(a.rules, n, 0)->0] == a.rules[rule_index(
        a.rules,
        n,
        0,
    )->0] by {
        if let ItemM::Rule(r) = y {
            lemma_rule_index(a.rules, n, r, 0);
        }
        lemma_rule_index(a.rules, n, a.rules[0], 0);
    }
    match y {
        ItemM::Lemma(l) => {
            lemma_still_named(a.lemma_names, l.name);
            lemma_still_named(a.diff_left_lemma_names, l.name);
            lemma_still_named(a.diff_right_lemma_names, l.name);
        },
        ItemM::DiffLemma(l) => {
            lemma_still_named(a.diff_lemma_names, l.name);
        },
        ItemM::Restriction(r) => {
            lemma_still_named(a.restriction_names, r.name);
        },
        ItemM::LegacyAxiom(r) => {
            lemma_still_named(a.restriction_names, r.name);
        },
        ItemM::Rule(r) => {
            lemma_restr_names(
                a.restriction_names,
                r.name,
                r.embedded_restrictions.len() as int,
            );
        },
        ItemM::Predicates(ps) => {
            assert forall|k: PredKeyM| #[trigger] a.predicates.contains(k) implies b.predicates.contains(k) by {
                let i = choose|i: int| 0 <= i < a.predicates.len() && a.predicates[i] == k;
                assert(b.predicates[i] == k);
            }
        },
        _ => {},
    }
}

#[verifier::spinoff_prover]
proof fn lemma_stays(is_diff: bool, a: SeenM, x: ItemM, y: ItemM)
    requires
        taken_by(is_diff, a, x),
    ensures
        taken_by(is_diff, noted(is_diff, a, y), x),
{
    lemma_grows(is_diff, a, y);
    let b = noted(is_diff, a, y);
    if let ItemM::Rule(r) = x {
        if !is_diff {
            assert(rule_index(a.rules, r.name, 0) is Some);
        }
    }
}

#[verifier::spinoff_prover]
proof fn lemma_apart(is_diff: bool, a: SeenM, x: ItemM, y: ItemM)
    requires
        taken_by(is_diff, a, x),
        fits(is_diff, a, y),
    ensures
        apart(is_diff, x, y),
{
    reveal(fits);
}

proof fn lemma_all_taken(is_diff: bool, a: SeenM, xs: Seq<ItemM>)
    requires
        all_fit(is_diff, a, xs),
    ensures
        forall|i: int|
            0 <= i < xs.len() ==> taken_by(is_diff, all_noted(is_diff, a, xs), #[trigger] xs[i]),
    decreases xs.len(),
{
    if xs.len() > 0 {
        let u = xs.drop_last();
        lemma_all_taken(is_diff, a, u);
        let b = all_noted(is_diff, a, u);
        assert forall|i: int| 0 <= i < xs.len() implies taken_by(
            is_diff,
            all_noted(is_diff, a, xs),
            #[trigger] xs[i],
        ) by {
            if i < u.len() {
                assert(u[i] == xs[i]);
                lemma_stays(is_diff, b, xs[i], xs.last());
            } else {
                lemma_takes(is_diff, b, xs.last());
            }
        }
    }
}

/// Items that each fit behind those before them have names that are apart.
pub proof fn law_items_that_fit_are_apart(is_diff: bool, a: SeenM, xs: Seq<ItemM>)
    requires
        all_fit(is_diff, a, xs),
    ensures
        names_apart(is_diff, xs),
    decreases xs.len(),
{
    if xs.len() > 0 {
        let u = xs.drop_last();
        law_items_that_fit_are_apart(is_diff, a, u);
        lemma_all_taken(is_diff, a, u);
        assert forall|i: int, j: int| 0 <= i < j < xs.len() implies apart(
            is_diff,
            #[trigger] xs[i],
            #[trigger] xs[j],
        ) by {
            assert(u[i] == xs[i]);
            if j < u.len() {
                assert(u[j] == xs[j]);
            } else {
                lemma_apart(is_diff, all_noted(is_diff, a, u), xs[i], xs.last());
            }
        }
    }
}

} // verus!
