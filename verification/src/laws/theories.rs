//! What a theory is made of.

use crate::ast::{
    CaseTestM, DiffLemmaM, EquationM, FunctionDeclM, ItemM, MacroM, PredicateM, ProcessDefM,
    ProcessM, RestrictionM, TacticM,
};
use crate::definitions::{equations, macros, predicates};
use crate::error::ErrorM;
use crate::functions::{builtins, functions};
use crate::items::{
    behind_directive, claim_item, directive, directive_item, item, process_item, rule_item,
    setting_item, word_item,
};
use crate::laws::tokens::{inside, law_one_word_at_a_place, word};
use crate::lemmas::{case_test, diff_lemma_item, legacy_axiom, lemma_item, restriction};
use crate::parser::{closing, cut, read, read_from, settled};
use crate::processes::{equiv_lemma, export_item, process_def, toplevel_process};
use crate::rules::{rule, rule_guard};
use crate::state::{group_steps, Hangs, PS};
use crate::tactics::{heuristic, options, tactic};
use crate::text::alphanumeric;
use crate::theory::{
    conditional, configuration, included, item_here, items, no_item_here, sourced, theory,
};
use crate::tokens::formal_comment_at;
use vstd::prelude::*;

verus! {

broadcast use {group_steps, crate::tokens::group_lexer};

spec fn item_words() -> Seq<Seq<char>> {
    seq![
        "builtins"@,
        "options"@,
        "functions"@,
        "function"@,
        "equations"@,
        "macros"@,
        "macro"@,
        "predicates"@,
        "predicate"@,
        "heuristic"@,
        "tactic"@,
        "restriction"@,
        "axiom"@,
        "rule"@,
        "lemma"@,
        "diffLemma"@,
        "test"@,
        "equivLemma"@,
        "diffEquivLemma"@,
        "export"@,
        "process"@,
        "let"@,
    ]
}

/// No two of these words are read at one place.
proof fn lemma_one_item_word(s: PS)
    requires
        inside(s),
    ensures
        forall|a: int, b: int|
            0 <= a < 22 && 0 <= b < 22 && a != b && (#[trigger] s.kw(item_words()[a])).0 ==> !(
            #[trigger] s.kw(item_words()[b])).0,
        item_words()[0] == "builtins"@,
        item_words()[1] == "options"@,
        item_words()[2] == "functions"@,
        item_words()[3] == "function"@,
        item_words()[4] == "equations"@,
        item_words()[5] == "macros"@,
        item_words()[6] == "macro"@,
        item_words()[7] == "predicates"@,
        item_words()[8] == "predicate"@,
        item_words()[9] == "heuristic"@,
        item_words()[10] == "tactic"@,
        item_words()[11] == "restriction"@,
        item_words()[12] == "axiom"@,
        item_words()[13] == "rule"@,
        item_words()[14] == "lemma"@,
        item_words()[15] == "diffLemma"@,
        item_words()[16] == "test"@,
        item_words()[17] == "equivLemma"@,
        item_words()[18] == "diffEquivLemma"@,
        item_words()[19] == "export"@,
        item_words()[20] == "process"@,
        item_words()[21] == "let"@,
{
    reveal(alphanumeric);
    reveal_strlit("builtins");
    reveal_strlit("options");
    reveal_strlit("functions");
    reveal_strlit("function");
    reveal_strlit("equations");
    reveal_strlit("macros");
    reveal_strlit("macro");
    reveal_strlit("predicates");
    reveal_strlit("predicate");
    reveal_strlit("heuristic");
    reveal_strlit("tactic");
    reveal_strlit("restriction");
    reveal_strlit("axiom");
    reveal_strlit("rule");
    reveal_strlit("lemma");
    reveal_strlit("diffLemma");
    reveal_strlit("test");
    reveal_strlit("equivLemma");
    reveal_strlit("diffEquivLemma");
    reveal_strlit("export");
    reveal_strlit("process");
    reveal_strlit("let");
    let w = item_words();
    assert(w[0] == "builtins"@ && word(w[0]) && w[0].len() == 8);
    assert(w[1] == "options"@ && word(w[1]) && w[1].len() == 7);
    assert(w[2] == "functions"@ && word(w[2]) && w[2].len() == 9);
    assert(w[3] == "function"@ && word(w[3]) && w[3].len() == 8);
    assert(w[4] == "equations"@ && word(w[4]) && w[4].len() == 9);
    assert(w[5] == "macros"@ && word(w[5]) && w[5].len() == 6);
    assert(w[6] == "macro"@ && word(w[6]) && w[6].len() == 5);
    assert(w[7] == "predicates"@ && word(w[7]) && w[7].len() == 10);
    assert(w[8] == "predicate"@ && word(w[8]) && w[8].len() == 9);
    assert(w[9] == "heuristic"@ && word(w[9]) && w[9].len() == 9);
    assert(w[10] == "tactic"@ && word(w[10]) && w[10].len() == 6);
    assert(w[11] == "restriction"@ && word(w[11]) && w[11].len() == 11);
    assert(w[12] == "axiom"@ && word(w[12]) && w[12].len() == 5);
    assert(w[13] == "rule"@ && word(w[13]) && w[13].len() == 4);
    assert(w[14] == "lemma"@ && word(w[14]) && w[14].len() == 5);
    assert(w[15] == "diffLemma"@ && word(w[15]) && w[15].len() == 9);
    assert(w[16] == "test"@ && word(w[16]) && w[16].len() == 4);
    assert(w[17] == "equivLemma"@ && word(w[17]) && w[17].len() == 10);
    assert(w[18] == "diffEquivLemma"@ && word(w[18]) && w[18].len() == 14);
    assert(w[19] == "export"@ && word(w[19]) && w[19].len() == 6);
    assert(w[20] == "process"@ && word(w[20]) && w[20].len() == 7);
    assert(w[21] == "let"@ && word(w[21]) && w[21].len() == 3);
    assert(w[0][0] == 'b' && w[3][0] == 'f');
    assert(w[1][0] == 'o' && w[20][0] == 'p');
    assert(w[2][0] == 'f' && w[4][0] == 'e');
    assert(w[2][0] == 'f' && w[8][0] == 'p');
    assert(w[2][0] == 'f' && w[9][0] == 'h');
    assert(w[2][0] == 'f' && w[15][0] == 'd');
    assert(w[4][0] == 'e' && w[8][0] == 'p');
    assert(w[4][0] == 'e' && w[9][0] == 'h');
    assert(w[4][0] == 'e' && w[15][0] == 'd');
    assert(w[5][0] == 'm' && w[10][0] == 't');
    assert(w[5][0] == 'm' && w[19][0] == 'e');
    assert(w[6][0] == 'm' && w[12][0] == 'a');
    assert(w[6][0] == 'm' && w[14][0] == 'l');
    assert(w[7][0] == 'p' && w[17][0] == 'e');
    assert(w[8][0] == 'p' && w[9][0] == 'h');
    assert(w[8][0] == 'p' && w[15][0] == 'd');
    assert(w[9][0] == 'h' && w[15][0] == 'd');
    assert(w[10][0] == 't' && w[19][0] == 'e');
    assert(w[12][0] == 'a' && w[14][0] == 'l');
    assert(w[13][0] == 'r' && w[16][0] == 't');
    assert forall|a: int, b: int|
        0 <= a < 22 && 0 <= b < 22 && a != b && (#[trigger] s.kw(w[a])).0 implies !(
    #[trigger] s.kw(w[b])).0 by {
        if s.kw(w[b]).0 {
            law_one_word_at_a_place(s, w[a], w[b]);
        }
    }
}

/// What item a word starts. A rule that is written modulo AC is one of the
/// adversary; what other items hold is what is read of them.
pub proof fn law_words_start_items(s: PS)
    requires
        inside(s),
    ensures
        s.kw("builtins"@).0 ==> (word_item(s) matches Some(r) && (r.0 matches Ok(x) ==> x is Builtins && builtins(s).0 == Ok::<Seq<Seq<char>>, ErrorM>(x->Builtins_0))),
        s.kw("options"@).0 ==> (word_item(s) matches Some(r) && (r.0 matches Ok(x) ==> x is Options && options(s).0 == Ok::<Seq<Seq<char>>, ErrorM>(x->Options_0))),
        s.kw("functions"@).0 ==> (word_item(s) matches Some(r) && (r.0 matches Ok(x) ==> x is Functions && functions(s).0 == Ok::<Seq<FunctionDeclM>, ErrorM>(
            x->Functions_0,
        ))),
        s.kw("function"@).0 ==> (word_item(s) matches Some(r) && (r.0 matches Ok(x) ==> x is Functions && functions(s).0 == Ok::<Seq<FunctionDeclM>, ErrorM>(
            x->Functions_0,
        ))),
        s.kw("equations"@).0 ==> (word_item(s) matches Some(r) && (r.0 matches Ok(x) ==> x is Equations && equations(s).0 == Ok::<(bool, Seq<EquationM>), ErrorM>(
            (x->convergent, x->eqs),
        ))),
        s.kw("macros"@).0 ==> (word_item(s) matches Some(r) && (r.0 matches Ok(x) ==> x is Macros && macros(s).0 == Ok::<Seq<MacroM>, ErrorM>(x->Macros_0))),
        s.kw("macro"@).0 ==> (word_item(s) matches Some(r) && (r.0 matches Ok(x) ==> x is Macros && macros(s).0 == Ok::<Seq<MacroM>, ErrorM>(x->Macros_0))),
        s.kw("predicates"@).0 ==> (word_item(s) matches Some(r) && (r.0 matches Ok(x) ==> x is Predicates && predicates(s).0 == Ok::<Seq<PredicateM>, ErrorM>(
            x->Predicates_0,
        ))),
        s.kw("predicate"@).0 ==> (word_item(s) matches Some(r) && (r.0 matches Ok(x) ==> x is Predicates && predicates(s).0 == Ok::<Seq<PredicateM>, ErrorM>(
            x->Predicates_0,
        ))),
        s.kw("heuristic"@).0 ==> (word_item(s) matches Some(r) && (r.0 matches Ok(x) ==> x is Heuristic && heuristic(s).0 == Ok::<Seq<char>, ErrorM>(x->raw)
            && x->source_file == s.place.source_file)),
        s.kw("tactic"@).0 ==> (word_item(s) matches Some(r) && (r.0 matches Ok(x) ==> x is Tactic && tactic(s).0 == Ok::<TacticM, ErrorM>(x->Tactic_0))),
        s.kw("restriction"@).0 ==> (word_item(s) matches Some(r) && (r.0 matches Ok(x) ==> x is Restriction && restriction(s, "restriction"@).0 == Ok::<
            RestrictionM,
            ErrorM,
        >(x->Restriction_0))),
        s.kw("axiom"@).0 ==> (word_item(s) matches Some(r) && (r.0 matches Ok(x) ==> x is LegacyAxiom && legacy_axiom(s).0 == Ok::<RestrictionM, ErrorM>(
            x->LegacyAxiom_0,
        ))),
        s.kw("diffLemma"@).0 ==> (word_item(s) matches Some(r) && (r.0 matches Ok(x) ==> x is DiffLemma && diff_lemma_item(s).0 == Ok::<DiffLemmaM, ErrorM>(
            x->DiffLemma_0,
        ))),
        s.kw("test"@).0 ==> (word_item(s) matches Some(r) && (r.0 matches Ok(x) ==> x is CaseTest && case_test(s).0 == Ok::<CaseTestM, ErrorM>(x->CaseTest_0))),
        s.kw("process"@).0 ==> (word_item(s) matches Some(r) && (r.0 matches Ok(x) ==> x is TopLevelProcess && toplevel_process(s).0 == Ok::<ProcessM, ErrorM>(
            x->TopLevelProcess_0,
        ))),
        s.kw("let"@).0 ==> (word_item(s) matches Some(r) && (r.0 matches Ok(x) ==> x is ProcessDef && process_def(s).0 == Ok::<ProcessDefM, ErrorM>(
            x->ProcessDef_0,
        ))),
        s.kw("rule"@).0 ==> word_item(s) == Some(rule_item(s)),
        s.kw("lemma"@).0 ==> word_item(s) == Some(lemma_item(s)),
        s.kw("equivLemma"@).0 ==> word_item(s) == Some(equiv_lemma(s, false)),
        s.kw("diffEquivLemma"@).0 ==> word_item(s) == Some(equiv_lemma(s, true)),
        s.kw("export"@).0 ==> word_item(s) == Some(export_item(s)),
{
    reveal(word_item);
    reveal(setting_item);
    reveal(claim_item);
    reveal(process_item);
    lemma_one_item_word(s);
}

/// A rule modulo AC is a rule of the adversary, and any other a rule of the
/// protocol.
pub proof fn law_rules_of_the_adversary(s: PS)
    ensures
        rule_item(s).0 matches Ok(x) ==> rule(s).0 matches Ok(r) && (if r.modulo == Some("AC"@) {
            x == ItemM::IntrRule(r)
        } else {
            x == ItemM::Rule(r) && rule_guard(rule(s).1, r).0 is Ok
        }),
{
    reveal(rule_item);
}

/// `#define` sets the flag behind it and changes no other; `#include` names a
/// file.
pub proof fn law_directives(s: PS)
    ensures
        directive(s) == Some("define"@) ==> (directive_item(s).0 matches Ok(x) ==> {
            let n = behind_directive(s).ws().ident();
            &&& n.0 is Ok
            &&& x == Some(ItemM::Define(n.0->Ok_0))
            &&& directive_item(s).1.st.flags == n.1.st.flags.push(n.0->Ok_0)
            &&& directive_item(s).1.at == n.1.at
        }),
        directive(s) == Some("include"@) && directive(s) != Some("define"@) ==> (directive_item(
            s,
        ).0 matches Ok(x) ==> {
            let n = behind_directive(s).ws().need_literal();
            n.0 is Ok && x == Some(ItemM::Include(n.0->Ok_0)) && directive_item(s).1 == n.1
        }),
        directive(s) is None ==> directive_item(s) == (Ok::<Option<ItemM>, ErrorM>(None), s),
{
    reveal(directive_item);
}

/// A directive is the run of letters behind `#`.
pub proof fn law_directive_names(s: PS)
    requires
        inside(s),
    ensures
        directive(s) is Some <==> s.at < s.src.len() && s.src[s.at] == '#',
        directive(s) matches Some(d) ==> {
            &&& s.at + 1 + d.len() <= s.src.len()
            &&& d == s.src.subrange(s.at + 1, s.at + 1 + d.len())
            &&& behind_directive(s).at == s.at + 1 + d.len()
            &&& forall|i: int|
                0 <= i < d.len() ==> 'a' <= #[trigger] d[i] <= 'z' || 'A' <= d[i] <= 'Z'
            &&& s.at + 1 + d.len() < s.src.len() ==> {
                let c = s.src[s.at + 1 + d.len()];
                !('a' <= c <= 'z' || 'A' <= c <= 'Z')
            }
        },
{
    reveal(directive);
    if directive(s) is Some {
        lemma_letters(s.src, s.at + 1);
        let d = directive(s)->0;
        assert forall|i: int| 0 <= i < d.len() implies 'a' <= #[trigger] d[i] <= 'z' || 'A' <= d[i]
            <= 'Z' by {
            assert(d[i] == s.src[s.at + 1 + i]);
        }
    }
}

proof fn lemma_letters(src: Seq<char>, i: int)
    requires
        0 <= i <= src.len(),
    ensures
        i <= crate::tokens::alpha_end(src, i) <= src.len(),
        forall|j: int|
            i <= j < crate::tokens::alpha_end(src, i) ==> 'a' <= #[trigger] src[j] <= 'z' || 'A'
                <= src[j] <= 'Z',
        crate::tokens::alpha_end(src, i) < src.len() ==> !crate::text::ascii_alpha(
            src[crate::tokens::alpha_end(src, i)],
        ),
    decreases src.len() - i,
{
    if i < src.len() && crate::text::ascii_alpha(src[i]) {
        lemma_letters(src, i + 1);
    }
}

/// An item is a directive, a formal comment, or what its word starts, in this
/// order.
pub proof fn law_items_are_read(s: PS)
    requires
        inside(s),
    ensures
        ({
            let w = s.ws();
            let c = PS { h: Hangs { item: None, ..w.h }, ..w };
            &&& directive_item(c).0 matches Ok(Some(x)) ==> item(s).0 == Ok::<ItemM, ErrorM>(x)
            &&& directive_item(c).0 == Ok::<Option<ItemM>, ErrorM>(None) ==> (formal_comment_at(
                c.src,
                c.at,
            ) matches Some((header, body, e)) ==> item(s).0 == Ok::<ItemM, ErrorM>(
                ItemM::FormalComment { header, body },
            ))
            &&& directive_item(c).0 == Ok::<Option<ItemM>, ErrorM>(None) && formal_comment_at(
                c.src,
                c.at,
            ) is None ==> (word_item(c) matches Some(r) ==> item(s) == r)
        }),
{
    reveal(item);
}

/// The file that an item stands in is noted in lemmas and heuristics, and
/// changes nothing else.
pub proof fn law_items_note_their_file(x: ItemM, f: Option<Seq<char>>)
    ensures
        x matches ItemM::Lemma(l) ==> (sourced(x, f) matches ItemM::Lemma(m) && m.source_file == f
            && m.name == l.name && m.formula == l.formula && m.proof == l.proof && m.attributes
            == l.attributes && m.trace_quantifier == l.trace_quantifier && m.plaintext
            == l.plaintext),
        x matches ItemM::AccLemma(l) ==> (sourced(x, f) matches ItemM::AccLemma(m) && m.source_file
            == f && m.name == l.name && m.formula == l.formula && m.case_test_idents
            == l.case_test_idents && m.attributes == l.attributes),
        x matches ItemM::DiffLemma(l) ==> (sourced(x, f) matches ItemM::DiffLemma(m)
            && m.source_file == f && m.name == l.name && m.proof == l.proof && m.attributes
            == l.attributes),
        x is Heuristic ==> sourced(x, f) == (ItemM::Heuristic { raw: x->raw, source_file: f }),
        !(x is Lemma) && !(x is AccLemma) && !(x is DiffLemma) && !(x is Heuristic) ==> sourced(
            x,
            f,
        ) == x,
{
}

/// The items of a theory come in the order in which they stand: what is read
/// first comes first, and what is read later behind it.
pub proof fn law_items_in_order(s: PS, acc: Seq<ItemM>)
    ensures
        items(s, acc).0 matches Ok(v) ==> acc.len() <= v.len() && v.take(acc.len() as int) == acc,
    decreases crate::theory::room(s.st), s.rem(),
{
    lemma_items_front(s, acc);
}

proof fn lemma_items_front(s: PS, acc: Seq<ItemM>)
    ensures
        items(s, acc).0 matches Ok(v) ==> acc.len() <= v.len() && v.take(acc.len() as int) == acc,
    decreases crate::theory::room(s.st), s.rem(),
{
    let w = s.ws();
    let d = directive(w);
    if w.eof() || w.at_kw("end"@) || d == Some("endif"@) || d == Some("else"@) {
        assert(acc.take(acc.len() as int) =~= acc);
    } else {
        let r = if d == Some("include"@) {
            included(w)
        } else if d == Some("ifdef"@) {
            conditional(w)
        } else {
            match item_here(w) {
                (Ok(x), s1) => (Ok(seq![x]), s1),
                (Err(e), s1) => (Err(e), s1),
            }
        };
        if let (Ok(v), s1) = r {
            if w.ahead(s1) && w.at < s1.at {
                lemma_items_front(s1, acc + v);
                if let Ok(all) = items(s1, acc + v).0 {
                    assert(all.take(acc.len() as int) =~= all.take((acc + v).len() as int).take(
                        acc.len() as int,
                    ));
                    assert((acc + v).take(acc.len() as int) =~= acc);
                }
            }
        }
    }
}

/// Each item is put behind those before it, and the items of an include or of a
/// live branch stand in its place.
pub proof fn law_items_one_by_one(s: PS, acc: Seq<ItemM>, v: Seq<ItemM>, e: PS)
    requires
        inside(s),
        s.ws().ahead(e),
        s.ws().at < e.at,
        !s.ws().eof(),
        !s.ws().kw("end"@).0,
        directive(s.ws()) != Some("endif"@),
        directive(s.ws()) != Some("else"@),
    ensures
        directive(s.ws()) == Some("include"@) && included(s.ws()) == (
            Ok::<Seq<ItemM>, ErrorM>(v),
            e,
        ) ==> items(s, acc) == items(e, acc + v),
        directive(s.ws()) == Some("ifdef"@) && directive(s.ws()) != Some("include"@)
            && conditional(s.ws()) == (Ok::<Seq<ItemM>, ErrorM>(v), e) ==> items(s, acc) == items(
            e,
            acc + v,
        ),
        directive(s.ws()) != Some("include"@) && directive(s.ws()) != Some("ifdef"@) && v.len() == 1
            && item_here(s.ws()) == (Ok::<ItemM, ErrorM>(v[0]), e) ==> items(s, acc) == items(
            e,
            acc.push(v[0]),
        ),
{
    if v.len() == 1 {
        assert(acc + seq![v[0]] =~= acc.push(v[0]));
    }
}

/// A theory has the name behind `theory`, the configuration before `begin`, and
/// the items up to `end`.
pub proof fn law_theories_are_as_written(s: PS)
    ensures
        theory(s).0 matches Ok(t) ==> {
            let n = s.ws().kw("theory"@).1.ident();
            let c = configuration(n.1);
            let v = items(c.1, Seq::empty());
            &&& s.ws().kw("theory"@).0
            &&& n.0 == Ok::<Seq<char>, ErrorM>(t.name)
            &&& c.0 == Ok::<Option<Seq<char>>, ErrorM>(t.configuration)
            &&& v.0 == Ok::<Seq<ItemM>, ErrorM>(t.items)
            &&& v.1.kw("end"@) == (true, theory(s).1)
            &&& t.is_diff == s.place.is_diff
        },
{
    reveal(theory);
    reveal(no_item_here);
    reveal(crate::basics::fail_item);
}

/// A configuration is the text behind `configuration:`, before `begin`; a
/// theory without one starts with `begin`.
pub proof fn law_configurations(s: PS)
    ensures
        configuration(s).0 matches Ok(c) ==> {
            let k = s.kw("configuration"@);
            let l = k.1.punct(":"@).1.literal();
            &&& k.0 ==> k.1.punct(":"@).0 && c is Some && l.0 == c && l.1.kw("begin"@) == (
                true,
                configuration(s).1,
            )
            &&& !k.0 ==> c is None && s.kw("begin"@) == (true, configuration(s).1)
        },
{
    reveal(configuration);
}

/// What is read of a text is a theory that stands in a part of it that ends
/// with the word `end`.
pub proof fn law_readings_end_with_end(s: PS)
    ensures
        read(s).0 matches Ok(t) ==> exists|k: int|
            #[trigger] closing(s.src, k) && theory(cut(s, k)) == read(s),
{
    lemma_reading(s, 0);
}

proof fn lemma_reading(s: PS, k: int)
    requires
        0 <= k,
    ensures
        read_from(s, k).0 is Ok ==> exists|j: int|
            #[trigger] closing(s.src, j) && theory(cut(s, j)) == read_from(s, k),
    decreases s.src.len() + 1 - k,
{
    if k <= s.src.len() {
        if !(closing(s.src, k) && settled(theory(cut(s, k)))) {
            lemma_reading(s, k + 1);
        }
    }
}

} // verus!
