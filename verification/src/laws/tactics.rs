//! What tactics and heuristics say.

use crate::ast::{LeafM, PrioM, SelectorM};
use crate::error::ErrorM;
use crate::laws::tokens::{
    behind, behind_word, inside, lemma_one_of, lemma_spaced, lemma_word_or_token, one_of,
    word_or_token, written,
};
use crate::state::{group_steps, PS};
use crate::tactics::{
    block_ranking, heuristic, more_options, more_selector_conjuncts, more_selector_disjuncts,
    next_quote, option_from, options, presort, prio_block, prio_blocks, selector_conjunction,
    selector_disjunction, selector_leaf, selector_negation, selector_param, selector_params,
    selectors, tactic,
};
use crate::text::trimmed;
use crate::tokens::{alpha_end, line_end};
use vstd::prelude::*;

verus! {

broadcast use {group_steps, crate::tokens::group_lexer};

/// Whether the goals that a leaf selects are selected, where `v` says which
/// leaves select.
pub open spec fn selects(x: SelectorM, v: spec_fn(LeafM) -> bool) -> bool
    decreases x,
{
    match x {
        SelectorM::Leaf(l) => v(l),
        SelectorM::Not(a) => !selects(*a, v),
        SelectorM::And(a, b) => selects(*a, v) && selects(*b, v),
        SelectorM::Or(a, b) => selects(*a, v) || selects(*b, v),
    }
}

/// A selector is negated exactly where `not` or `¬` stands before it, and
/// selects then what it did not.
pub proof fn law_negated_selectors(s: PS, v: spec_fn(LeafM) -> bool)
    requires
        inside(s),
    ensures
        selector_negation(s).0 matches Ok(Some(x)) ==> {
            &&& word_or_token(s, "not"@, "¬"@) ==> (selector_leaf(
                behind_word(s, "not"@, "¬"@),
            ).0 matches Some(a) && x == SelectorM::Not(Box::new(a)) && selects(x, v) == !selects(
                a,
                v,
            ))
            &&& !word_or_token(s, "not"@, "¬"@) ==> selector_leaf(s.ws()).0 == Some(x)
        },
        selector_negation(s).0 == Ok::<Option<SelectorM>, ErrorM>(None) ==> !word_or_token(
            s,
            "not"@,
            "¬"@,
        ),
{
    reveal(selector_negation);
    lemma_word_or_token(s, "not"@, "¬"@);
}

/// Selectors with `&` between them select what both select, joined from the
/// left; without `&` the selector stays as it is.
pub proof fn law_selectors_with_and(s: PS, a: SelectorM, b: SelectorM, e: PS)
    requires
        inside(s),
    ensures
        !one_of(s, "&"@, "∧"@) ==> more_selector_conjuncts(s, a).0 == Ok::<
            Option<SelectorM>,
            ErrorM,
        >(Some(a)),
        one_of(s, "&"@, "∧"@) && selector_negation(behind(s, "&"@, "∧"@)) == (
            Ok::<Option<SelectorM>, ErrorM>(Some(b)),
            e,
        ) && behind(s, "&"@, "∧"@).past(e) ==> more_selector_conjuncts(s, a)
            == more_selector_conjuncts(e, SelectorM::And(Box::new(a), Box::new(b))),
        selector_negation(s) == (Ok::<Option<SelectorM>, ErrorM>(Some(b)), e)
            ==> selector_conjunction(s) == more_selector_conjuncts(e, b),
{
    reveal(selector_conjunction);
    lemma_one_of(s, "&"@, "∧"@);
}

/// Selectors with `|` between them select what one of them selects, joined from
/// the left; without `|` the selector stays as it is.
pub proof fn law_selectors_with_or(s: PS, a: SelectorM, b: SelectorM, e: PS)
    requires
        inside(s),
    ensures
        !one_of(s, "|"@, "∨"@) ==> more_selector_disjuncts(s, a).0 == Ok::<
            Option<SelectorM>,
            ErrorM,
        >(Some(a)),
        one_of(s, "|"@, "∨"@) && selector_conjunction(behind(s, "|"@, "∨"@)) == (
            Ok::<Option<SelectorM>, ErrorM>(Some(b)),
            e,
        ) && behind(s, "|"@, "∨"@).past(e) ==> more_selector_disjuncts(s, a)
            == more_selector_disjuncts(e, SelectorM::Or(Box::new(a), Box::new(b))),
        selector_conjunction(s) == (Ok::<Option<SelectorM>, ErrorM>(Some(b)), e)
            ==> selector_disjunction(s) == more_selector_disjuncts(e, b),
{
    reveal(selector_disjunction);
    lemma_one_of(s, "|"@, "∨"@);
}

/// Two selectors with `&` between them and no further one: goals are selected
/// exactly where both select them; and with `|`, where one does.
pub proof fn law_two_selectors(
    s: PS,
    a: SelectorM,
    b: SelectorM,
    e: PS,
    v: spec_fn(LeafM) -> bool,
)
    requires
        inside(s),
        inside(e),
    ensures
        one_of(s, "&"@, "∧"@) && selector_negation(behind(s, "&"@, "∧"@)) == (
            Ok::<Option<SelectorM>, ErrorM>(Some(b)),
            e,
        ) && behind(s, "&"@, "∧"@).past(e) && !one_of(e, "&"@, "∧"@) ==> (
        more_selector_conjuncts(s, a).0 matches Ok(Some(x)) && selects(x, v) == (selects(a, v)
            && selects(b, v))),
        one_of(s, "|"@, "∨"@) && selector_conjunction(behind(s, "|"@, "∨"@)) == (
            Ok::<Option<SelectorM>, ErrorM>(Some(b)),
            e,
        ) && behind(s, "|"@, "∨"@).past(e) && !one_of(e, "|"@, "∨"@) ==> (
        more_selector_disjuncts(s, a).0 matches Ok(Some(x)) && selects(x, v) == (selects(a, v)
            || selects(b, v))),
{
    law_selectors_with_and(s, a, b, e);
    law_selectors_with_or(s, a, b, e);
    law_selectors_with_and(e, SelectorM::And(Box::new(a), Box::new(b)), b, e);
    law_selectors_with_or(e, SelectorM::Or(Box::new(a), Box::new(b)), b, e);
}

/// A leaf is a name and the texts in quotes behind it, of which there is one at
/// least.
pub proof fn law_leaves_of_selectors(s: PS)
    ensures
        selector_leaf(s).0 matches Some(x) ==> {
            &&& x is Leaf
            &&& s.name().0 == Some(x->Leaf_0.name)
            &&& x->Leaf_0.params == selector_params(s.name().1, Seq::empty()).0
            &&& x->Leaf_0.params.len() > 0
        },
        s.name().0 is Some && selector_params(s.name().1, Seq::empty()).0.len() > 0
            ==> selector_leaf(s).0 is Some,
{
    reveal(selector_leaf);
}

/// The texts of a leaf come in their order.
pub proof fn law_texts_of_leaves(s: PS, acc: Seq<Seq<char>>)
    ensures
        selector_param(s).0 matches Some(p) ==> selector_params(s, acc) == selector_params(
            selector_param(s).1,
            acc.push(p),
        ),
        selector_param(s).0 is None ==> selector_params(s, acc).0 == acc,
{
}

/// A text of a leaf is what stands between two double quotes: it holds none.
pub proof fn law_texts_in_quotes(s: PS)
    requires
        inside(s),
    ensures
        selector_param(s).0 matches Some(p) ==> written(
            s.src,
            s.ws().at,
            seq!['"'] + p + seq!['"'],
        ) && forall|i: int| 0 <= i < p.len() ==> #[trigger] p[i] != '"',
{
    reveal(selector_param);
    let w = s.ws();
    lemma_next(w.src, w.at + 1);
    let e = next_quote(w.src, w.at + 1);
    if let Some(p) = selector_param(s).0 {
        let q = seq!['"'] + p + seq!['"'];
        assert forall|i: int| w.at <= i < w.at + q.len() implies #[trigger] s.src[i] == q[i
            - w.at] by {
            if w.at < i < e {
                assert(p[i - w.at - 1] == s.src[i]);
            }
        }
        assert forall|i: int| 0 <= i < p.len() implies #[trigger] p[i] != '"' by {
            assert(p[i] == s.src[w.at + 1 + i]);
        }
    }
}

proof fn lemma_next(src: Seq<char>, i: int)
    requires
        0 <= i,
    ensures
        i <= next_quote(src, i),
        i <= src.len() ==> next_quote(src, i) <= src.len(),
        forall|j: int| i <= j < next_quote(src, i) ==> #[trigger] src[j] != '"',
        next_quote(src, i) < src.len() ==> src[next_quote(src, i)] == '"',
    decreases src.len() - i,
{
    if i < src.len() && src[i] != '"' {
        lemma_next(src, i + 1);
    }
}

/// A block of a tactic has the ranking in its braces, `id` where it has none,
/// and the selectors behind it.
pub proof fn law_blocks_of_tactics(s: PS)
    ensures
        prio_block(s).0 matches Ok(b) ==> {
            let r = block_ranking(s.punct(":"@).1);
            &&& s.punct(":"@).0
            &&& r.0 == Ok::<Seq<char>, ErrorM>(b.ranking)
            &&& selectors(r.1, Seq::empty()).0 == Ok::<Seq<SelectorM>, ErrorM>(b.selectors)
            &&& b.selectors.len() > 0
        },
        block_ranking(s).0 matches Ok(r) ==> {
            &&& !s.punct("{"@).0 ==> r == "id"@
            &&& s.punct("{"@).0 ==> s.punct("{"@).1.ident().0 == Ok::<Seq<char>, ErrorM>(r)
                && s.punct("{"@).1.ident().1.punct("}"@).0
        },
{
    reveal(prio_block);
    reveal(block_ranking);
}

/// The selectors of a block come in their order, and end where the next block
/// starts.
pub proof fn law_selectors_in_order(s: PS, acc: Seq<SelectorM>, x: SelectorM, e: PS)
    ensures
        s.kw("prio"@).0 || s.kw("deprio"@).0 || s.kw("presort"@).0 ==> selectors(s, acc) == (
            Ok::<Seq<SelectorM>, ErrorM>(acc),
            s,
        ),
        !s.kw("prio"@).0 && !s.kw("deprio"@).0 && !s.kw("presort"@).0 && selector_disjunction(s)
            == (Ok::<Option<SelectorM>, ErrorM>(Some(x)), e) && s.past(e) && s.at < e.at
            ==> selectors(s, acc) == selectors(e, acc.push(x)),
        !s.kw("prio"@).0 && !s.kw("deprio"@).0 && !s.kw("presort"@).0 && selector_disjunction(s).0
            == Ok::<Option<SelectorM>, ErrorM>(None) ==> selectors(s, acc).0 == Ok::<
            Seq<SelectorM>,
            ErrorM,
        >(acc),
{
}

/// The blocks of one word come in their order.
pub proof fn law_blocks_in_order(s: PS, k: Seq<char>, acc: Seq<PrioM>, b: PrioM, e: PS)
    ensures
        !s.kw(k).0 ==> prio_blocks(s, k, acc) == (Ok::<Seq<PrioM>, ErrorM>(acc), s),
        s.kw(k).0 && prio_block(s.kw(k).1) == (Ok::<PrioM, ErrorM>(b), e) && s.kw(k).1.past(e)
            ==> prio_blocks(s, k, acc) == prio_blocks(e, k, acc.push(b)),
{
}

/// A tactic has the name, the order to start from, the blocks that are tried
/// first and the blocks that are tried last, in this order.
pub proof fn law_tactics_are_as_written(s: PS)
    ensures
        tactic(s).0 matches Ok(t) ==> {
            let n = s.kw("tactic"@).1.punct(":"@).1.ident();
            let p = presort(n.1);
            let a = prio_blocks(p.1, "prio"@, Seq::empty());
            let b = prio_blocks(a.1, "deprio"@, Seq::empty());
            &&& s.kw("tactic"@).0 && s.kw("tactic"@).1.punct(":"@).0
            &&& n.0 == Ok::<Seq<char>, ErrorM>(t.name)
            &&& p.0 == Ok::<char, ErrorM>(t.presort)
            &&& a.0 == Ok::<Seq<PrioM>, ErrorM>(t.prios)
            &&& b.0 == Ok::<Seq<PrioM>, ErrorM>(t.deprios)
        },
{
    reveal(tactic);
}

/// The order that a tactic starts from is a letter; it is `s` where the tactic
/// does not say.
pub proof fn law_presort(s: PS)
    ensures
        !s.kw("presort"@).0 ==> presort(s) == (Ok::<char, ErrorM>('s'), s),
        presort(s).0 matches Ok(c) ==> c == 's' || c == 'S' || c == 'c' || c == 'C' || (
        !s.place.is_diff && (c == 'p' || c == 'P' || c == 'i' || c == 'I')),
        s.kw("presort"@).0 && presort(s).0 is Ok ==> s.kw("presort"@).1.punct(":"@).0 && ({
            let b = s.kw("presort"@).1.punct(":"@).1;
            b.src.subrange(b.at, alpha_end(b.src, b.at)) == seq![presort(s).0->Ok_0]
        }),
{
    reveal(presort);
    if s.kw("presort"@).0 && presort(s).0 is Ok {
        let b = s.kw("presort"@).1.punct(":"@).1;
        let w = b.src.subrange(b.at, alpha_end(b.src, b.at));
        assert(w =~= seq![w[0]]);
    }
}

/// A heuristic is the rest of its line, without the space around it.
pub proof fn law_heuristics(s: PS)
    ensures
        heuristic(s).0 matches Ok(h) ==> {
            let b = s.kw("heuristic"@).1.punct(":"@);
            &&& s.kw("heuristic"@).0 && b.0
            &&& h == trimmed(b.1.src.subrange(b.1.at, line_end(b.1.src, b.1.at)))
            &&& heuristic(s).1 == b.1.to(line_end(b.1.src, b.1.at))
        },
{
    reveal(heuristic);
}

/// An option is one of those that a theory may declare, and is read where its
/// name stands.
pub proof fn law_known_options(s: PS)
    requires
        inside(s),
    ensures
        option_from(s, 0).0 matches Some(o) ==> s.punct(o) == (true, option_from(s, 0).1) && (o
            == "translation-progress"@ || o == "translation-allow-pattern-lookups"@ || o
            == "translation-state-optimisation"@ || o == "translation-asynchronous-channels"@ || o
            == "translation-compress-events"@),
        s.punct("translation-progress"@).0 ==> option_from(s, 0).0 == Some(
            "translation-progress"@,
        ),
{
    reveal_with_fuel(option_from, 6);
    let v = crate::ast::DeclarableOption::listed();
    lemma_spaced(s, v[0].text());
    lemma_spaced(s, v[1].text());
    lemma_spaced(s, v[2].text());
    lemma_spaced(s, v[3].text());
    lemma_spaced(s, v[4].text());
}

/// The options of a theory come in their order, with commas between them.
pub proof fn law_options_in_order(s: PS, acc: Seq<Seq<char>>, o: Seq<char>, e: PS)
    requires
        option_from(s, 0) == (Some(o), e),
        s.past(e),
    ensures
        e.punct(","@).0 ==> more_options(s, acc) == more_options(e.punct(","@).1, acc.push(o)),
        !e.punct(","@).0 ==> more_options(s, acc).0 == Ok::<Seq<Seq<char>>, ErrorM>(acc.push(o)),
        options(s).0 is Ok ==> s.kw("options"@).0 && s.kw("options"@).1.punct(":"@).0,
{
    reveal(options);
}

} // verus!
