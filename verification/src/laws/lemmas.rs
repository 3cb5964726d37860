//! What lemmas and restrictions claim.

use crate::ast::{FormulaM, ItemM, LemmaAttrM, RestrictionAttr, TraceQuantifier};
use crate::error::ErrorM;
use crate::formulas::{fail_formula_end, formula};
use crate::laws::tokens::{inside, law_one_word_at_a_place, lemma_spaced, reads, word};
use crate::lemmas::{
    acc_body, case_test, case_tests, diff_lemma, diff_lemma_item, legacy_axiom, lemma_attr,
    lemma_attrs, lemma_body, lemma_guard, lemma_head, lemma_item, more_lemma_attrs, more_sides,
    on_left, on_right, quantifier, quoted_formula, restriction, restriction_body, sides,
    valued_attr,
};
use crate::lists::name_list;
use crate::proofs::{diff_skeleton, skeleton};
use crate::rules::modulo;
use crate::state::{group_steps, PS};
use crate::text::alphanumeric;
use vstd::prelude::*;

verus! {

broadcast use {group_steps, crate::tokens::group_lexer};

proof fn lemma_quantifier_words(s: PS)
    requires
        inside(s),
    ensures
        !(s.kw("all-traces"@).0 && s.kw("exists-trace"@).0),
{
    reveal_strlit("all-traces");
    reveal_strlit("exists-trace");
    reveal(crate::text::alphanumeric);
    assert("all-traces"@[9] == 's' && "exists-trace"@[11] == 'e');
    assert(crate::text::ident_char("all-traces"@[9]));
    assert(crate::text::ident_char("exists-trace"@[11]));
    crate::laws::tokens::law_words_stand_in_the_text(s, "all-traces"@);
    crate::laws::tokens::law_words_stand_in_the_text(s, "exists-trace"@);
    let b = crate::tokens::ws_end(s.src, s.at);
    if s.kw("all-traces"@).0 {
        assert(s.src[b] == 'a');
    }
    if s.kw("exists-trace"@).0 {
        assert(s.src[b] == 'e');
    }
}

/// A lemma speaks of some trace exactly where `exists-trace` comes next, and of
/// all traces elsewhere.
pub proof fn law_trace_quantifiers(s: PS)
    requires
        inside(s),
    ensures
        quantifier(s).0 == TraceQuantifier::ExistsTrace <==> s.kw("exists-trace"@).0,
        quantifier(s).0 == TraceQuantifier::AllTraces <==> !s.kw("exists-trace"@).0,
        s.kw("exists-trace"@).0 ==> quantifier(s).1 == s.kw("exists-trace"@).1,
        s.kw("all-traces"@).0 ==> quantifier(s).1 == s.kw("all-traces"@).1,
        !s.kw("exists-trace"@).0 && !s.kw("all-traces"@).0 ==> quantifier(s).1 == s,
{
    reveal(quantifier);
    lemma_quantifier_words(s);
}

/// The quantifier, the formula and the proof of a lemma are those that stand
/// behind the colon of its head, in this order; the name and the attributes are
/// those of the head.
pub proof fn law_lemmas_are_as_written(s: PS)
    requires
        inside(s),
    ensures
        lemma_item(s).0 matches Ok(ItemM::Lemma(l)) ==> {
            let h = lemma_head(s);
            let q = acc_body(h.1).1;
            let f = quoted_formula(quantifier(q).1);
            &&& h.0 == Ok::<(Seq<char>, Seq<LemmaAttrM>), ErrorM>((l.name, l.attributes))
            &&& q == h.1
            &&& l.trace_quantifier == quantifier(h.1).0
            &&& f.0 == Ok::<FormulaM, ErrorM>(l.formula)
            &&& skeleton(f.1).0->Ok_0 == l.proof
            &&& l.source_file == h.1.place.source_file
            &&& l.plaintext == crate::comments::uncommented(
                skeleton(f.1).1.src.subrange(s.at, skeleton(f.1).1.at),
                0,
            )
            &&& inside(h.1) ==> (l.trace_quantifier == TraceQuantifier::ExistsTrace <==> h.1.kw(
                "exists-trace"@,
            ).0)
        },
{
    reveal(lemma_item);
    reveal(lemma_body);
    reveal(acc_body);
    reveal(lemma_guard);
    reveal(crate::basics::fail_behind_item);
    if inside(lemma_head(s).1) {
        law_trace_quantifiers(lemma_head(s).1);
    }
}

/// The head of a lemma: the word `lemma`, a name, attributes and a colon.
pub proof fn law_heads_of_lemmas(s: PS)
    ensures
        lemma_head(s).0 matches Ok((name, attrs)) ==> {
            let n = modulo(s.kw("lemma"@).1).1;
            &&& s.kw("lemma"@).0
            &&& n.ident().0 == Ok::<Seq<char>, ErrorM>(name)
            &&& lemma_attrs(n.ident().1).0 == Ok::<Seq<LemmaAttrM>, ErrorM>(attrs)
            &&& lemma_attrs(n.ident().1).1.punct(":"@) == (true, lemma_head(s).1)
        },
{
    reveal(lemma_head);
}

/// A lemma that names case tests and says that they account for its formula is
/// an accountability lemma with those case tests and that formula.
pub proof fn law_accountability_lemmas(s: PS)
    ensures
        lemma_item(s).0 matches Ok(ItemM::AccLemma(l)) ==> {
            let h = lemma_head(s);
            let t = case_tests(h.1, Seq::empty());
            &&& h.0 == Ok::<(Seq<char>, Seq<LemmaAttrM>), ErrorM>((l.name, l.attributes))
            &&& l.case_test_idents == t.0
            &&& t.0.len() > 0
            &&& t.1.kw("accounts"@).0 || t.1.kw("account"@).0
            &&& l.source_file == s.place.source_file
            &&& quoted_formula(
                (if t.1.kw("accounts"@).0 {
                    t.1.kw("accounts"@).1
                } else {
                    t.1.kw("account"@).1
                }).kw("for"@).1,
            ).0 == Ok::<FormulaM, ErrorM>(l.formula)
        },
{
    reveal(lemma_item);
    reveal(acc_body);
    reveal(lemma_body);
    reveal(lemma_guard);
}

/// The case tests of an accountability lemma come in their order, with commas
/// between them, up to the word that says what they account for.
pub proof fn law_named_case_tests(s: PS, acc: Seq<Seq<char>>, id: Seq<char>, e: PS)
    requires
        s.ws().name() == (Some(id), e),
    ensures
        id == "accounts"@ || id == "account"@ ==> case_tests(s, acc) == (acc, s.ws()),
        id != "accounts"@ && id != "account"@ && e.punct(","@).0 ==> case_tests(s, acc)
            == case_tests(e.punct(","@).1, acc.push(id)),
        id != "accounts"@ && id != "account"@ && !e.punct(","@).0 ==> case_tests(s, acc).0
            == acc.push(id),
{
}

/// The value of an attribute ends with the comma or the bracket behind it,
/// where the brackets inside it are closed.
pub proof fn law_values_of_attributes(src: Seq<char>, i: int, depth: int)
    requires
        0 <= i <= src.len(),
    ensures
        ({
            let e = crate::lemmas::value_end(src, i, depth);
            &&& i <= e <= src.len()
            &&& e < src.len() ==> src[e] == ']' || src[e] == ','
            &&& i < src.len() && depth == 0 && (src[i] == ']' || src[i] == ',') ==> e == i
            &&& i < src.len() && (src[i] == '[' || src[i] == '(' || src[i] == '{') ==> e
                == crate::lemmas::value_end(src, i + 1, depth + 1)
        }),
    decreases src.len() - i,
{
    if i < src.len() {
        let c = src[i];
        if depth == 0 && (c == ']' || c == ',') {
        } else if c == '[' || c == '(' || c == '{' {
            law_values_of_attributes(src, i + 1, depth + 1);
        } else if c == ']' || c == ')' || c == '}' {
            law_values_of_attributes(src, i + 1, depth - 1);
        } else {
            law_values_of_attributes(src, i + 1, depth);
        }
    }
}

/// A quoted formula is the formula between two double quotes.
pub proof fn law_quoted_formulas(s: PS)
    requires
        inside(s),
    ensures
        quoted_formula(s).0 matches Ok(f) ==> {
            let o = s.punct("\""@);
            &&& o.0
            &&& formula(o.1).0 == Ok::<FormulaM, ErrorM>(f)
            &&& formula(o.1).1.punct("\""@) == (true, quoted_formula(s).1)
        },
{
    reveal(quoted_formula);
    reveal(fail_formula_end);
}

proof fn lemma_attr_words()
    ensures
        forall|a: int, b: int|
            0 <= a < b < 10 ==> #[trigger] attr_words()[a] != #[trigger] attr_words()[b],
{
    reveal_strlit("typing");
    reveal_strlit("sources");
    reveal_strlit("reuse");
    reveal_strlit("diff_reuse");
    reveal_strlit("use_induction");
    reveal_strlit("left");
    reveal_strlit("right");
    reveal_strlit("hide_lemma");
    reveal_strlit("heuristic");
    reveal_strlit("output");
    let w = attr_words();
    assert(w[0].len() == 6 && w[1].len() == 7 && w[2].len() == 5 && w[3].len() == 10 && w[4].len()
        == 13 && w[5].len() == 4 && w[6].len() == 5 && w[7].len() == 10 && w[8].len() == 9
        && w[9].len() == 6);
    assert(w[0][0] == 't' && w[9][0] == 'o' && w[2][1] == 'e' && w[6][1] == 'i' && w[3][0] == 'd'
        && w[7][0] == 'h');
}

spec fn attr_words() -> Seq<Seq<char>> {
    seq![
        "typing"@,
        "sources"@,
        "reuse"@,
        "diff_reuse"@,
        "use_induction"@,
        "left"@,
        "right"@,
        "hide_lemma"@,
        "heuristic"@,
        "output"@,
    ]
}

proof fn lemma_one_attr_word(s: PS)
    requires
        inside(s),
    ensures
        forall|j: Seq<char>, k: Seq<char>|
            attr_words().contains(j) && attr_words().contains(k) && #[trigger] s.kw(j).0
                && #[trigger] s.kw(k).0 ==> j == k,
{
    reveal(alphanumeric);
    reveal_strlit("typing");
    reveal_strlit("sources");
    reveal_strlit("reuse");
    reveal_strlit("diff_reuse");
    reveal_strlit("use_induction");
    reveal_strlit("left");
    reveal_strlit("right");
    reveal_strlit("hide_lemma");
    reveal_strlit("heuristic");
    reveal_strlit("output");
    assert(word("typing"@));
    assert(word("sources"@));
    assert(word("reuse"@));
    assert(word("diff_reuse"@));
    assert(word("use_induction"@));
    assert(word("left"@));
    assert(word("right"@));
    assert(word("hide_lemma"@));
    assert(word("heuristic"@));
    assert(word("output"@));
    let ws = attr_words();
    assert forall|j: Seq<char>, k: Seq<char>|
        ws.contains(j) && ws.contains(k) && #[trigger] s.kw(j).0 && #[trigger] s.kw(k).0 implies j
        == k by {
        law_one_word_at_a_place(s, j, k);
    }
}

/// What the words for attributes of lemmas mean.
pub proof fn law_attributes_of_lemmas(s: PS)
    requires
        inside(s),
    ensures
        s.kw("typing"@).0 ==> lemma_attr(s).0 == Ok::<Option<LemmaAttrM>, ErrorM>(
            Some(LemmaAttrM::Sources),
        ),
        s.kw("sources"@).0 ==> lemma_attr(s).0 == Ok::<Option<LemmaAttrM>, ErrorM>(
            Some(LemmaAttrM::Sources),
        ),
        s.kw("reuse"@).0 ==> lemma_attr(s).0 == Ok::<Option<LemmaAttrM>, ErrorM>(
            Some(LemmaAttrM::Reuse),
        ),
        s.kw("diff_reuse"@).0 ==> lemma_attr(s).0 == Ok::<Option<LemmaAttrM>, ErrorM>(
            Some(LemmaAttrM::DiffReuse),
        ),
        s.kw("use_induction"@).0 ==> lemma_attr(s).0 == Ok::<Option<LemmaAttrM>, ErrorM>(
            Some(LemmaAttrM::UseInduction),
        ),
        s.kw("left"@).0 ==> lemma_attr(s).0 == Ok::<Option<LemmaAttrM>, ErrorM>(
            Some(LemmaAttrM::Left),
        ),
        s.kw("right"@).0 ==> lemma_attr(s).0 == Ok::<Option<LemmaAttrM>, ErrorM>(
            Some(LemmaAttrM::Right),
        ),
        s.kw("hide_lemma"@).0 ==> (lemma_attr(s).0 matches Ok(a) ==> {
            let v = s.kw("hide_lemma"@).1.punct("="@);
            &&& v.0
            &&& v.1.ident().0 is Ok
            &&& a == Some(LemmaAttrM::HideLemma(v.1.ident().0->Ok_0))
        }),
        s.kw("heuristic"@).0 ==> (lemma_attr(s).0 matches Ok(a) ==> {
            let v = s.kw("heuristic"@).1.punct("="@);
            &&& v.0
            &&& a == Some(LemmaAttrM::Heuristic(crate::lemmas::attr_value(v.1).0))
        }),
        s.kw("output"@).0 ==> (lemma_attr(s).0 matches Ok(a) ==> {
            let v = s.kw("output"@).1.punct("="@);
            let ns = name_list(v.1.punct("["@).1, "]"@);
            &&& v.0 && v.1.punct("["@).0
            &&& ns.0 is Ok
            &&& a == Some(LemmaAttrM::Output(ns.0->Ok_0))
        }),
{
    reveal(lemma_attr);
    reveal(valued_attr);
    lemma_attr_words();
    lemma_one_attr_word(s);
    lemma_spaced(s, "typing"@);
    lemma_spaced(s, "sources"@);
    lemma_spaced(s, "reuse"@);
    lemma_spaced(s, "diff_reuse"@);
    lemma_spaced(s, "use_induction"@);
    lemma_spaced(s, "left"@);
    lemma_spaced(s, "right"@);
    lemma_spaced(s, "hide_lemma"@);
    lemma_spaced(s, "heuristic"@);
    lemma_spaced(s, "output"@);
    let w = attr_words();
    assert(w[0] == "typing"@ && w[1] == "sources"@ && w[2] == "reuse"@ && w[3] == "diff_reuse"@
        && w[4] == "use_induction"@ && w[5] == "left"@ && w[6] == "right"@ && w[7]
        == "hide_lemma"@ && w[8] == "heuristic"@ && w[9] == "output"@);
}

/// Whether attributes are read at the states `at`, with commas between them,
/// and the closing bracket stands behind the last.
pub open spec fn attrs_at(at: Seq<PS>, xs: Seq<LemmaAttrM>, ends: Seq<PS>) -> bool {
    &&& 0 < xs.len() == at.len() == ends.len()
    &&& forall|i: int|
        0 <= i < xs.len() ==> reads(#[trigger] at[i], lemma_attr(at[i]), Some(xs[i]), ends[i])
    &&& forall|i: int|
        0 <= i < xs.len() - 1 ==> (#[trigger] ends[i]).punct(","@) == (true, at[i + 1])
    &&& inside(ends.last())
    &&& !ends.last().punct(","@).0
    &&& ends.last().punct("]"@).0
}

proof fn lemma_attrs_at(at: Seq<PS>, xs: Seq<LemmaAttrM>, ends: Seq<PS>, k: int)
    requires
        attrs_at(at, xs, ends),
        0 <= k < xs.len(),
    ensures
        more_lemma_attrs(at[k], xs.take(k)) == (
            Ok::<Seq<LemmaAttrM>, ErrorM>(xs),
            ends.last().punct("]"@).1,
        ),
    decreases xs.len() - k,
{
    assert(reads(at[k], lemma_attr(at[k]), Some(xs[k]), ends[k]));
    assert(xs.take(k).push(xs[k]) =~= xs.take(k + 1));
    if k + 1 < xs.len() {
        assert(ends[k].punct(","@) == (true, at[k + 1]));
        lemma_attrs_at(at, xs, ends, k + 1);
    } else {
        assert(xs.take(k + 1) =~= xs);
        lemma_spaced(ends[k], ","@);
        lemma_spaced(ends[k], "]"@);
    }
}

/// A lemma has the attributes that stand in its brackets, in their order, and
/// none where there are no brackets.
pub proof fn law_attributes_in_order(s: PS, at: Seq<PS>, xs: Seq<LemmaAttrM>, ends: Seq<PS>)
    requires
        s.punct("["@).0 ==> attrs_at(at, xs, ends) && at[0] == s.punct("["@).1,
    ensures
        s.punct("["@).0 ==> lemma_attrs(s) == (
            Ok::<Seq<LemmaAttrM>, ErrorM>(xs),
            ends.last().punct("]"@).1,
        ),
        !s.punct("["@).0 ==> lemma_attrs(s).0 == Ok::<Seq<LemmaAttrM>, ErrorM>(Seq::empty()),
{
    reveal(lemma_attrs);
    if s.punct("["@).0 {
        lemma_attrs_at(at, xs, ends, 0);
        assert(xs.take(0) =~= Seq::empty());
    }
}

/// A lemma that says neither `left` nor `right` belongs to both sides of a diff
/// theory, one that says one of them to that side alone, and one that says both
/// to the left.
pub proof fn law_sides_of_lemmas(attrs: Seq<LemmaAttrM>)
    ensures
        !attrs.contains(LemmaAttrM::Left) && !attrs.contains(LemmaAttrM::Right) ==> on_left(attrs)
            && on_right(attrs),
        attrs.contains(LemmaAttrM::Left) ==> on_left(attrs) && !on_right(attrs),
        attrs.contains(LemmaAttrM::Right) && !attrs.contains(LemmaAttrM::Left) ==> on_right(attrs)
            && !on_left(attrs),
{
}

/// A lemma whose name is free is taken, and its name is then taken where the
/// lemma belongs; one whose name is taken there is refused.
pub proof fn law_lemma_names_are_taken(s: PS, name: Seq<char>, attrs: Seq<LemmaAttrM>)
    ensures
        !s.place.is_diff ==> (lemma_guard(s, name, attrs).0 is Err
            <==> s.st.seen.lemma_names.contains(name)),
        s.place.is_diff && !attrs.contains(LemmaAttrM::Left) && !attrs.contains(LemmaAttrM::Right)
            ==> (lemma_guard(s, name, attrs).0 is Err
            <==> s.st.seen.diff_left_lemma_names.contains(name)
            || s.st.seen.diff_right_lemma_names.contains(name)),
        s.place.is_diff && attrs.contains(LemmaAttrM::Left) ==> (lemma_guard(
            s,
            name,
            attrs,
        ).0 is Err <==> s.st.seen.diff_left_lemma_names.contains(name)),
        s.place.is_diff && attrs.contains(LemmaAttrM::Right) && !attrs.contains(LemmaAttrM::Left)
            ==> (lemma_guard(s, name, attrs).0 is Err
            <==> s.st.seen.diff_right_lemma_names.contains(name)),
        lemma_guard(s, name, attrs).0 is Ok ==> lemma_guard(
            lemma_guard(s, name, attrs).1,
            name,
            attrs,
        ).0 is Err,
{
    reveal(lemma_guard);
    reveal(crate::basics::fail_behind_item);
    let t = lemma_guard(s, name, attrs).1;
    if lemma_guard(s, name, attrs).0 is Ok {
        if !s.place.is_diff {
            assert(t.st.seen.lemma_names.last() == name);
        } else if on_left(attrs) {
            assert(t.st.seen.diff_left_lemma_names.last() == name);
        } else {
            assert(t.st.seen.diff_right_lemma_names.last() == name);
        }
    }
}

/// A restriction has the name, the sides and the formula that are written.
pub proof fn law_restrictions_are_as_written(s: PS, word: Seq<char>)
    ensures
        restriction_body(s, word).0 matches Ok(r) ==> {
            let n = s.kw(word).1.ident();
            let a = sides(n.1);
            &&& s.kw(word).0
            &&& n.0 == Ok::<Seq<char>, ErrorM>(r.name)
            &&& a.0 == Ok::<Seq<RestrictionAttr>, ErrorM>(r.attributes)
            &&& a.1.punct(":"@).0
            &&& quoted_formula(a.1.punct(":"@).1).0 == Ok::<FormulaM, ErrorM>(r.formula)
        },
        restriction(s, word).0 is Ok ==> restriction(s, word).0 == restriction_body(s, word).0,
{
    reveal(restriction_body);
    reveal(restriction);
    reveal(crate::basics::fail_behind_item);
}

/// A restriction without sides in a plain theory has a name of its own: the
/// same name is refused a second time.
pub proof fn law_restriction_names(s: PS, word: Seq<char>)
    requires
        restriction_body(s, word).0 is Ok,
        restriction_body(s, word).1.st == s.st,
    ensures
        ({
            let r = restriction_body(s, word).0->Ok_0;
            restriction(s, word).0 is Err <==> !s.place.is_diff && r.attributes.len() == 0
                && s.st.seen.restriction_names.contains(r.name)
        }),
        restriction(s, word).0 matches Ok(r) ==> restriction(
            s,
            word,
        ).1.st.seen.restriction_names.contains(r.name),
        legacy_axiom(s).0 == restriction(s, "axiom"@).0,
{
    reveal(restriction);
    reveal(legacy_axiom);
    reveal(crate::basics::fail_behind_item);
    let r = restriction_body(s, word).0->Ok_0;
    let names = s.st.seen.restriction_names.push(r.name);
    assert(names.last() == r.name);
}

/// The sides of a restriction: `left` and `right`, in the order in which they
/// stand.
pub proof fn law_sides_of_restrictions(s: PS, acc: Seq<RestrictionAttr>)
    requires
        inside(s),
    ensures
        s.kw("left"@).0 && !s.kw("left"@).1.punct(","@).0 && s.kw("left"@).1.punct("]"@).0
            ==> more_sides(s, acc).0 == Ok::<Seq<RestrictionAttr>, ErrorM>(
            acc.push(RestrictionAttr::LeftRestriction),
        ),
        !s.kw("left"@).0 && s.kw("right"@).0 && !s.kw("right"@).1.punct(","@).0 && s.kw(
            "right"@,
        ).1.punct("]"@).0 ==> more_sides(s, acc).0 == Ok::<Seq<RestrictionAttr>, ErrorM>(
            acc.push(RestrictionAttr::RightRestriction),
        ),
        s.kw("left"@).0 && s.kw("left"@).1.punct(","@).0 ==> more_sides(s, acc) == more_sides(
            s.kw("left"@).1.punct(","@).1,
            acc.push(RestrictionAttr::LeftRestriction),
        ),
        !s.kw("left"@).0 && s.kw("right"@).0 && s.kw("right"@).1.punct(","@).0 ==> more_sides(
            s,
            acc,
        ) == more_sides(
            s.kw("right"@).1.punct(","@).1,
            acc.push(RestrictionAttr::RightRestriction),
        ),
        !s.punct("["@).0 ==> sides(s).0 == Ok::<Seq<RestrictionAttr>, ErrorM>(Seq::empty()),
        s.punct("["@).0 ==> sides(s) == more_sides(s.punct("["@).1, Seq::empty()),
{
    reveal(sides);
    lemma_spaced(s, "left"@);
    lemma_spaced(s, "right"@);
    lemma_spaced(s.kw("left"@).1, ","@);
    lemma_spaced(s.kw("left"@).1, "]"@);
    lemma_spaced(s.kw("right"@).1, ","@);
    lemma_spaced(s.kw("right"@).1, "]"@);
}

/// A diff lemma has the name, the attributes and the proof that are written.
pub proof fn law_diff_lemmas_are_as_written(s: PS)
    ensures
        diff_lemma_item(s).0 matches Ok(l) ==> {
            let n = s.kw("diffLemma"@).1.ident();
            let a = lemma_attrs(n.1);
            &&& s.kw("diffLemma"@).0
            &&& n.0 == Ok::<Seq<char>, ErrorM>(l.name)
            &&& a.0 == Ok::<Seq<LemmaAttrM>, ErrorM>(l.attributes)
            &&& a.1.punct(":"@).0
            &&& diff_skeleton(a.1.punct(":"@).1).0->Ok_0 == l.proof
            &&& l.source_file == s.place.source_file
            &&& !diff_lemma(s).1.st.seen.diff_lemma_names.contains(l.name)
            &&& diff_lemma_item(s).1.st.seen.diff_lemma_names.contains(l.name)
        },
{
    reveal(diff_lemma_item);
    reveal(diff_lemma);
    reveal(crate::basics::fail_behind_item);
    if let Ok(l) = diff_lemma_item(s).0 {
        let names = diff_lemma(s).1.st.seen.diff_lemma_names.push(l.name);
        assert(names.last() == l.name);
    }
}

/// A case test has the name and the formula that are written.
pub proof fn law_case_tests_are_as_written(s: PS)
    ensures
        case_test(s).0 matches Ok(t) ==> {
            let n = s.kw("test"@).1.ident();
            &&& s.kw("test"@).0
            &&& n.0 == Ok::<Seq<char>, ErrorM>(t.name)
            &&& n.1.punct(":"@).0
            &&& quoted_formula(n.1.punct(":"@).1).0 == Ok::<FormulaM, ErrorM>(t.formula)
        },
{
    reveal(case_test);
}

} // verus!
