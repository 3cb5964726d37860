//! What facts are.

use crate::ast::{FactAnnotation, FactM, TermM};
use crate::error::ErrorM;
use crate::facts::{
    annotation, fact, fact_annotations, fact_list, fact_name_error, fact_of, more_annotations,
    more_facts, special_fact,
};
use crate::laws::tokens::{inside, lemma_spaced, reads};
use crate::state::{group_steps, Hangs, PS};
use crate::terms::term_args;
use crate::text::upper_text;
use vstd::prelude::*;

verus! {

broadcast use {group_steps, crate::tokens::group_lexer};

/// Whether the name, without regard to case, is that of none of the facts that
/// have a meaning of their own.
pub open spec fn ordinary(name: Seq<char>) -> bool {
    let u = upper_text(name);
    u != "OUT"@ && u != "IN"@ && u != "KU"@ && u != "KD"@ && u != "DED"@ && u != "FR"@
}

/// The upper case of a text has its length, and each small letter's capital in
/// its place.
pub proof fn law_upper_case(w: Seq<char>, i: int)
    requires
        0 <= i < w.len(),
    ensures
        upper_text(w).len() == w.len(),
        'a' <= w[i] <= 'z' ==> upper_text(w)[i] as int - 'A' as int == w[i] as int - 'a' as int,
        !('a' <= w[i] <= 'z') ==> upper_text(w)[i] == w[i],
{
}

/// A fact is persistent exactly where `!` stands before its name, unless its
/// name has a meaning of its own. Name, arguments and annotations are those
/// that are written.
pub proof fn law_persistent_facts(s: PS)
    requires
        inside(s),
    ensures
        fact(s).0 matches Ok(f) ==> {
            let n = s.punct("!"@).1;
            &&& n.ident().0 is Ok
            &&& ({
                let name = n.ident().0->Ok_0;
                let a = n.ident().1.punct("("@);
                let args = term_args(a.1);
                let anns = fact_annotations(args.1);
                &&& name.len() > 0 && 'A' <= name[0] <= 'Z'
                &&& a.0 && args.0 is Ok && anns.0 is Ok
                &&& f.args == args.0->Ok_0
                &&& fact(s).1 == anns.1
                &&& ordinary(name) ==> (f.persistent <==> s.punct("!"@).0)
                &&& ordinary(name) ==> f.name == name && f.annotations == anns.0->Ok_0
            })
        },
{
    reveal(fact);
    reveal(fact_of);
    reveal(fact_name_error);
    reveal(special_fact);
}

/// The parts of a fact that are written make a fact: name with a capital in
/// front, arguments, annotations.
pub proof fn law_facts_are_read(
    s: PS,
    name: Seq<char>,
    e: PS,
    args: Seq<TermM>,
    t: PS,
    anns: Seq<FactAnnotation>,
    u: PS,
)
    requires
        inside(s),
        s.punct("!"@).1.ident() == (Ok::<Seq<char>, ErrorM>(name), e),
        name.len() > 0,
        'A' <= name[0] <= 'Z',
        e.punct("("@).0,
        term_args(e.punct("("@).1) == (Ok::<Seq<TermM>, ErrorM>(args), t),
        fact_annotations(t) == (Ok::<Seq<FactAnnotation>, ErrorM>(anns), u),
    ensures
        ordinary(name) ==> fact(s) == (
            Ok::<FactM, ErrorM>(
                FactM { persistent: s.punct("!"@).0, name, args, annotations: anns },
            ),
            u,
        ),
{
    reveal(fact);
    reveal(fact_of);
    reveal(special_fact);
}

/// The facts whose names have a meaning: messages sent, received, known and
/// deduced, and fresh values. Their names are written in one way, they take
/// one argument, and what the adversary knows is persistent. Only a message
/// received keeps its annotations, and a fresh value is never persistent.
pub proof fn law_facts_with_a_meaning(s: PS)
    requires
        inside(s),
    ensures
        fact(s).0 matches Ok(f) ==> {
            let n = s.punct("!"@).1;
            let u = upper_text(n.ident().0->Ok_0);
            &&& !ordinary(n.ident().0->Ok_0) ==> f.args.len() == 1
            &&& u == "OUT"@ ==> f.name == "Out"@ && !f.persistent && f.annotations.len() == 0
            &&& u == "IN"@ ==> f.name == "In"@ && !f.persistent && f.annotations
                == fact_annotations(term_args(n.ident().1.punct("("@).1).1).0->Ok_0
            &&& u == "KU"@ ==> f.name == "KU"@ && f.persistent && f.annotations.len() == 0
            &&& u == "KD"@ ==> f.name == "KD"@ && f.persistent && f.annotations.len() == 0
            &&& u == "DED"@ ==> f.name == "Ded"@ && !f.persistent && f.annotations.len() == 0
            &&& u == "FR"@ ==> f.name == "Fr"@ && !f.persistent && !s.punct("!"@).0
                && f.annotations.len() == 0
        },
{
    reveal(fact);
    reveal(fact_of);
    reveal(fact_name_error);
    reveal(special_fact);
    lemma_apart();
}

proof fn lemma_apart()
    ensures
        "OUT"@ != "IN"@ && "OUT"@ != "KU"@ && "OUT"@ != "KD"@ && "OUT"@ != "DED"@ && "OUT"@
            != "FR"@,
        "IN"@ != "KU"@ && "IN"@ != "KD"@ && "IN"@ != "DED"@ && "IN"@ != "FR"@,
        "KU"@ != "KD"@ && "KU"@ != "DED"@ && "KU"@ != "FR"@,
        "KD"@ != "DED"@ && "KD"@ != "FR"@ && "DED"@ != "FR"@,
{
    reveal_strlit("OUT");
    reveal_strlit("IN");
    reveal_strlit("KU");
    reveal_strlit("KD");
    reveal_strlit("DED");
    reveal_strlit("FR");
    assert("OUT"@.len() == 3 && "DED"@.len() == 3 && "OUT"@[0] == 'O' && "DED"@[0] == 'D');
    assert("IN"@[0] == 'I' && "KU"@[0] == 'K' && "KD"@[0] == 'K' && "FR"@[0] == 'F');
    assert("KU"@[1] == 'U' && "KD"@[1] == 'D');
}

/// The annotations of a fact: `+` asks to solve it first, `-` to solve it last,
/// and `no_precomp` to leave it out of the computation of sources.
pub proof fn law_annotations(s: PS)
    requires
        inside(s),
    ensures
        s.punct("+"@).0 ==> annotation(s).0 == Some(FactAnnotation::SolveFirst),
        !s.punct("+"@).0 && s.punct("-"@).0 ==> annotation(s) == (
            Some(FactAnnotation::SolveLast),
            s.punct("-"@).1,
        ),
        !s.punct("+"@).0 && !s.punct("-"@).0 && s.kw("no_precomp"@).0 ==> annotation(s) == (
            Some(FactAnnotation::NoSources),
            s.kw("no_precomp"@).1,
        ),
        !s.punct("+"@).0 && !s.punct("-"@).0 && !s.kw("no_precomp"@).0 ==> annotation(s).0 is None,
{
    reveal_strlit("++");
    reveal_strlit("+");
    crate::laws::tokens::law_tokens_stand_in_the_text(s, "++"@);
    crate::laws::tokens::law_tokens_stand_in_the_text(s, "+"@);
    lemma_spaced(s, "++"@);
    lemma_spaced(s, "+"@);
    lemma_spaced(s, "-"@);
    lemma_spaced(s, "no_precomp"@);
    lemma_spaced(s.ws(), "no_precomp"@);
    if s.punct("++"@).0 {
        let b = crate::tokens::ws_end(s.src, s.at);
        assert(s.src[b] == '+');
    }
}

/// A fact without brackets behind it has no annotations; with brackets it has
/// those between them.
pub proof fn law_annotations_stand_in_brackets(s: PS)
    requires
        inside(s),
    ensures
        !s.punct("["@).0 ==> fact_annotations(s).0 == Ok::<Seq<FactAnnotation>, ErrorM>(
            Seq::empty(),
        ),
        s.punct("["@).0 && s.punct("["@).1.punct("]"@).0 ==> fact_annotations(s).0 == Ok::<
            Seq<FactAnnotation>,
            ErrorM,
        >(Seq::empty()),
        s.punct("["@).0 && !s.punct("["@).1.punct("]"@).0 ==> fact_annotations(s)
            == more_annotations(
            PS { h: Hangs { annot: None, ..s.h }, ..s.punct("["@).1.ws() },
            Seq::empty(),
        ),
{
    reveal(fact_annotations);
    crate::tokens::lemma_ws_end_idempotent(s.src, crate::tokens::ws_end(s.src, s.at) + "["@.len());
    reveal(PS::punct);
    crate::tokens::lemma_ws_end_idempotent(s.src, s.at);
}

/// Annotations come in their order, with commas between them, up to the closing
/// bracket.
pub proof fn law_annotations_in_order(
    s: PS,
    acc: Seq<FactAnnotation>,
    a: FactAnnotation,
    e: PS,
)
    requires
        inside(s),
        annotation(s) == (Some(a), e),
    ensures
        e.punct(","@).0 ==> more_annotations(s, acc) == more_annotations(
            e.punct(","@).1,
            acc.push(a),
        ),
        !e.punct(","@).0 && e.punct("]"@).0 ==> more_annotations(s, acc) == (
            Ok::<Seq<FactAnnotation>, ErrorM>(acc.push(a)),
            e.punct("]"@).1,
        ),
{
    lemma_spaced(e, ","@);
    lemma_spaced(e, "]"@);
}

/// Whether a fact is read at `s` as `f`, up to `e`.
#[verifier::opaque]
pub open spec fn fact_at(s: PS, f: FactM, e: PS) -> bool {
    inside(s) && reads(s, fact(s), f, e)
}

/// Whether facts are read at the states `at`, with commas between them, and the
/// closing token `close` stands behind the last.
pub open spec fn facts_at(
    at: Seq<PS>,
    fs: Seq<FactM>,
    ends: Seq<PS>,
    close: Seq<char>,
) -> bool {
    &&& 0 < fs.len() == at.len() == ends.len()
    &&& forall|i: int| 0 <= i < fs.len() ==> fact_at(#[trigger] at[i], fs[i], ends[i])
    &&& forall|i: int|
        0 <= i < fs.len() - 1 ==> (#[trigger] ends[i]).punct(","@) == (true, at[i + 1])
            && !at[i + 1].punct(close).0
    &&& !ends.last().punct(","@).0
    &&& ends.last().punct(close).0
}

proof fn lemma_facts_at(
    at: Seq<PS>,
    fs: Seq<FactM>,
    ends: Seq<PS>,
    close: Seq<char>,
    k: int,
)
    requires
        facts_at(at, fs, ends, close),
        0 <= k < fs.len(),
    ensures
        more_facts(at[k], fs.take(k), close) == (
            Ok::<Seq<FactM>, ErrorM>(fs),
            ends.last().punct(close).1,
        ),
    decreases fs.len() - k,
{
    reveal(fact_at);
    assert(fact_at(at[k], fs[k], ends[k]));
    assert(fs.take(k).push(fs[k]) =~= fs.take(k + 1));
    if k + 1 < fs.len() {
        assert(ends[k].punct(","@) == (true, at[k + 1]));
        lemma_facts_at(at, fs, ends, close, k + 1);
    } else {
        assert(fs.take(k + 1) =~= fs);
        lemma_spaced(ends[k], ","@);
        lemma_spaced(ends[k], close);
    }
}

/// A list of facts holds the facts that stand in it, in their order; without
/// any, it is empty.
pub proof fn law_lists_of_facts(
    s: PS,
    at: Seq<PS>,
    fs: Seq<FactM>,
    ends: Seq<PS>,
    close: Seq<char>,
)
    requires
        inside(s),
        facts_at(at, fs, ends, close),
        at[0] == s.ws(),
    ensures
        !s.punct(close).0 ==> fact_list(s, close) == (
            Ok::<Seq<FactM>, ErrorM>(fs),
            ends.last().punct(close).1,
        ),
        s.punct(close).0 ==> fact_list(s, close) == (
            Ok::<Seq<FactM>, ErrorM>(Seq::empty()),
            s.punct(close).1,
        ),
{
    reveal(fact_list);
    lemma_spaced(s, close);
    lemma_facts_at(at, fs, ends, close, 0);
    assert(fs.take(0) =~= Seq::empty());
}

} // verus!
