//! What the names of variables say.

use crate::ast::{LSort, TermM, VarM};
use crate::error::ErrorM;
use crate::laws::tokens::{inside, law_one_word_at_a_place, lemma_spaced, reads, word};
use crate::lists::{more_names, more_vars, name_list, var_list};
use crate::state::{group_steps, PS};
use crate::text::alphanumeric;
use crate::vars::{
    bare_term, dot_index, nullary, pattern_var, sort_word, suffixed, type_elem, var_head, var_named,
    var_term, variable,
};
use vstd::prelude::*;

verus! {

broadcast use {group_steps, crate::tokens::group_lexer};

/// The sign before a variable is its sort: `~` is for fresh values, `$` for
/// public ones, `#` for points in time and `%` for numbers; a letter without a
/// sign is for messages of any kind. The name is the identifier behind the
/// sign.
pub proof fn law_signs_are_sorts(s: PS, v: VarM)
    requires
        inside(s),
        var_head(s).0 == Ok::<Option<VarM>, ErrorM>(Some(v)),
    ensures
        s.ws().peek() is Some,
        v.typ is None,
        s.ws().peek() == Some('~') ==> v.sort == LSort::Fresh,
        s.ws().peek() == Some('$') ==> v.sort == LSort::Pub,
        s.ws().peek() == Some('#') ==> v.sort == LSort::Node,
        s.ws().peek() == Some('%') ==> v.sort == LSort::Nat && s.sig.enable_nat,
        s.ws().peek() matches Some(c) ==> c != '~' && c != '$' && c != '#' && c != '%' ==> v.sort
            == LSort::Msg && s.ws().name().0 == Some(v.name),
        s.ws().peek() matches Some(c) ==> (c == '~' || c == '$' || c == '#' || c == '%')
            ==> s.ws().bump().name().0 == Some(v.name),
{
    reveal(var_head);
    reveal(var_named);
}

/// The index of a variable is the number behind the dot that follows its name,
/// and zero where no dot and digit follow.
pub proof fn law_indices(s: PS)
    requires
        inside(s),
    ensures
        s.peek() != Some('.') ==> dot_index(s).0 == 0,
        !(s.at + 1 < s.src.len() && '0' <= s.src[s.at + 1] <= '9') ==> dot_index(s).0 == 0,
        s.peek() == Some('.') && s.at + 1 < s.src.len() && '0' <= s.src[s.at + 1] <= '9'
            && s.bump().natural().0 is Some ==> dot_index(s).0 == s.bump().natural().0->0
            && dot_index(s).1.at == s.bump().natural().1.at,
{
    reveal(dot_index);
    reveal(PS::natural);
}

/// The index of a variable that is read stands behind its name.
pub proof fn law_variables_have_their_index(s: PS, v: VarM)
    requires
        inside(s),
        var_head(s).0 == Ok::<Option<VarM>, ErrorM>(Some(v)),
    ensures
        exists|t: PS| #[trigger] dot_index(t).0 == v.idx && t.src == s.src,
{
    reveal(var_head);
    reveal(var_named);
    let w = s.ws();
    let n = if w.peek() == Some('~') || w.peek() == Some('$') || w.peek() == Some('#') || w.peek()
        == Some('%') {
        w.bump()
    } else {
        w
    };
    let id = n.name().0->0;
    let s1 = n.name().1;
    let t = PS {
        h: crate::state::Hangs {
            last_ident_end: Some(crate::basics::word_offset(n.src, n.at, id.len() as int)),
            ..s1.h
        },
        ..s1
    };
    assert(dot_index(t).0 == v.idx);
}

proof fn lemma_sort_words(s: PS)
    requires
        inside(s),
    ensures
        s.kw("pub"@).0 ==> !s.kw("msg"@).0,
        s.kw("fresh"@).0 ==> !s.kw("msg"@).0 && !s.kw("pub"@).0,
        s.kw("node"@).0 ==> !s.kw("msg"@).0 && !s.kw("pub"@).0 && !s.kw("fresh"@).0,
        s.kw("nat"@).0 ==> !s.kw("msg"@).0 && !s.kw("pub"@).0 && !s.kw("fresh"@).0 && !s.kw(
            "node"@,
        ).0,
{
    reveal(alphanumeric);
    reveal_strlit("msg");
    reveal_strlit("pub");
    reveal_strlit("fresh");
    reveal_strlit("node");
    reveal_strlit("nat");
    assert(word("msg"@) && word("pub"@) && word("fresh"@) && word("node"@) && word("nat"@));
    assert("msg"@[0] == 'm' && "pub"@[0] == 'p' && "fresh"@[0] == 'f' && "node"@[1] == 'o'
        && "nat"@[1] == 'a' && "node"@[0] == 'n' && "nat"@[0] == 'n');
    if s.kw("msg"@).0 && s.kw("pub"@).0 {
        law_one_word_at_a_place(s, "msg"@, "pub"@);
    }
    if s.kw("msg"@).0 && s.kw("fresh"@).0 {
        law_one_word_at_a_place(s, "msg"@, "fresh"@);
    }
    if s.kw("msg"@).0 && s.kw("node"@).0 {
        law_one_word_at_a_place(s, "msg"@, "node"@);
    }
    if s.kw("msg"@).0 && s.kw("nat"@).0 {
        law_one_word_at_a_place(s, "msg"@, "nat"@);
    }
    if s.kw("pub"@).0 && s.kw("fresh"@).0 {
        law_one_word_at_a_place(s, "pub"@, "fresh"@);
    }
    if s.kw("pub"@).0 && s.kw("node"@).0 {
        law_one_word_at_a_place(s, "pub"@, "node"@);
    }
    if s.kw("pub"@).0 && s.kw("nat"@).0 {
        law_one_word_at_a_place(s, "pub"@, "nat"@);
    }
    if s.kw("fresh"@).0 && s.kw("node"@).0 {
        law_one_word_at_a_place(s, "fresh"@, "node"@);
    }
    if s.kw("fresh"@).0 && s.kw("nat"@).0 {
        law_one_word_at_a_place(s, "fresh"@, "nat"@);
    }
    if s.kw("node"@).0 && s.kw("nat"@).0 {
        law_one_word_at_a_place(s, "node"@, "nat"@);
    }
}

/// The words for sorts.
pub proof fn law_words_for_sorts(s: PS)
    requires
        inside(s),
    ensures
        s.kw("msg"@).0 ==> sort_word(s) == (Some(LSort::Msg), s.kw("msg"@).1),
        s.kw("pub"@).0 ==> sort_word(s) == (Some(LSort::Pub), s.kw("pub"@).1),
        s.kw("fresh"@).0 ==> sort_word(s) == (Some(LSort::Fresh), s.kw("fresh"@).1),
        s.kw("node"@).0 ==> sort_word(s) == (Some(LSort::Node), s.kw("node"@).1),
        s.kw("nat"@).0 ==> sort_word(s) == (Some(LSort::Nat), s.kw("nat"@).1),
        sort_word(s).0 is None ==> !s.kw("msg"@).0 && !s.kw("pub"@).0 && !s.kw("fresh"@).0 && !s.kw(
            "node"@,
        ).0 && !s.kw("nat"@).0,
{
    reveal(sort_word);
    lemma_sort_words(s);
}

/// Behind a colon stands the sort of a variable, or else its type; in a process
/// it is the type. Without a colon the variable stays as it is, except that a
/// point in time has a type of its own in a process. Name and index stay.
pub proof fn law_suffixes(s: PS, v: VarM)
    requires
        inside(s),
    ensures
        suffixed(s, v).0 matches Ok(w) ==> w.name == v.name && w.idx == v.idx,
        ({
            let t = s.punct(":"@).1;
            &&& !s.punct(":"@).0 && !s.mode.sapic ==> suffixed(s, v).0 == Ok::<VarM, ErrorM>(v)
            &&& !s.punct(":"@).0 && s.mode.sapic && v.sort != LSort::Node ==> suffixed(s, v).0
                == Ok::<VarM, ErrorM>(v)
            &&& !s.punct(":"@).0 && s.mode.sapic && v.sort == LSort::Node ==> suffixed(s, v).0
                == Ok::<VarM, ErrorM>(VarM { typ: Some("node"@), ..v })
            &&& s.punct(":"@).0 && !s.mode.sapic ==> {
                &&& t.kw("msg"@).0 ==> suffixed(s, v).0 == Ok::<VarM, ErrorM>(
                    VarM { sort: LSort::Msg, ..v },
                )
                &&& t.kw("pub"@).0 ==> suffixed(s, v).0 == Ok::<VarM, ErrorM>(
                    VarM { sort: LSort::Pub, ..v },
                )
                &&& t.kw("fresh"@).0 ==> suffixed(s, v).0 == Ok::<VarM, ErrorM>(
                    VarM { sort: LSort::Fresh, ..v },
                )
                &&& t.kw("node"@).0 ==> suffixed(s, v).0 == Ok::<VarM, ErrorM>(
                    VarM { sort: LSort::Node, ..v },
                )
                &&& t.kw("nat"@).0 ==> (suffixed(s, v).0 is Ok <==> s.sig.enable_nat)
                &&& t.kw("nat"@).0 && s.sig.enable_nat ==> suffixed(s, v).0 == Ok::<VarM, ErrorM>(
                    VarM { sort: LSort::Nat, ..v },
                )
            }
        }),
{
    reveal(suffixed);
    reveal(sort_word);
    reveal(type_elem);
    reveal(PS::punct);
    reveal(PS::kw);
    reveal(PS::name);
    let s0 = PS { h: crate::state::Hangs { sort_suffix: false, ..s.h }, ..s };
    lemma_sort_words(s0.punct(":"@).1);
}

/// In a process the name behind the colon is the type, and `Any` is no type.
pub proof fn law_types(s: PS, v: VarM)
    requires
        inside(s),
        s.mode.sapic,
        s.punct(":"@).0,
        s.punct(":"@).1.name().0 is Some,
    ensures
        ({
            let n = s.punct(":"@).1.name().0->0;
            &&& n != "Any"@ ==> suffixed(s, v).0 == Ok::<VarM, ErrorM>(VarM { typ: Some(n), ..v })
            &&& n == "Any"@ ==> suffixed(s, v).0 == Ok::<VarM, ErrorM>(VarM { typ: None, ..v })
        }),
{
    reveal(suffixed);
    reveal(type_elem);
    reveal(PS::punct);
    reveal(PS::name);
    let b = crate::tokens::ws_end(s.src, s.at) + ":"@.len();
    crate::tokens::lemma_ws_end_idempotent(s.src, b);
}

/// A variable is its head and its suffix.
pub proof fn law_variables_are_read(s: PS)
    ensures
        variable(s).0 matches Ok(v) ==> var_head(s).0 matches Ok(Some(h)) && suffixed(
            var_head(s).1,
            h,
        ) == variable(s),
        var_term(s).0 matches Ok(Some(t)) ==> t is Var && (var_head(s).0 matches Ok(Some(h))
            && suffixed(var_head(s).1, h).0 == Ok::<VarM, ErrorM>(t->Var_0)),
        pattern_var(s).0 matches Ok(t) ==> var_term(s).0 == Ok::<Option<TermM>, ErrorM>(Some(t)),
{
    reveal(variable);
    reveal(var_term);
    reveal(pattern_var);
}

/// A name that stands alone is a constant where one of that name is declared,
/// and else a variable of that name for messages.
pub proof fn law_names_alone(s: PS, id: Seq<char>)
    ensures
        nullary(s.sig, id) ==> bare_term(s, id) == (
            Ok::<TermM, ErrorM>(TermM::App(id, Seq::empty())),
            s,
        ),
        !nullary(s.sig, id) ==> (bare_term(s, id).0 matches Ok(t) ==> t is Var && suffixed(
            dot_index(s).1,
            VarM { name: id, idx: dot_index(s).0, sort: LSort::Msg, typ: None },
        ).0 == Ok::<VarM, ErrorM>(t->Var_0)),
{
    reveal(bare_term);
}

/// Whether variables are read at the states `at`, with commas between them, and
/// the closing token behind the last.
pub open spec fn vars_at(at: Seq<PS>, vs: Seq<VarM>, ends: Seq<PS>, close: Seq<char>) -> bool {
    &&& 0 < vs.len() == at.len() == ends.len()
    &&& forall|i: int| 0 <= i < vs.len() ==> reads(#[trigger] at[i], variable(at[i]), vs[i], ends[i])
    &&& forall|i: int|
        0 <= i < vs.len() - 1 ==> (#[trigger] ends[i]).punct(","@) == (true, at[i + 1])
            && !at[i + 1].punct(close).0
    &&& inside(ends.last())
    &&& !ends.last().punct(","@).0
    &&& ends.last().punct(close).0
}

proof fn lemma_vars_at(at: Seq<PS>, vs: Seq<VarM>, ends: Seq<PS>, close: Seq<char>, k: int)
    requires
        vars_at(at, vs, ends, close),
        0 <= k < vs.len(),
    ensures
        more_vars(at[k], vs.take(k), close) == (
            Ok::<Seq<VarM>, ErrorM>(vs),
            ends.last().punct(close).1,
        ),
    decreases vs.len() - k,
{
    assert(reads(at[k], variable(at[k]), vs[k], ends[k]));
    assert(vs.take(k).push(vs[k]) =~= vs.take(k + 1));
    if k + 1 < vs.len() {
        assert(ends[k].punct(","@) == (true, at[k + 1]));
        lemma_vars_at(at, vs, ends, close, k + 1);
    } else {
        assert(vs.take(k + 1) =~= vs);
        lemma_spaced(ends[k], ","@);
        lemma_spaced(ends[k], close);
    }
}

/// A list of variables holds those that stand in it, in their order.
pub proof fn law_lists_of_variables(
    s: PS,
    at: Seq<PS>,
    vs: Seq<VarM>,
    ends: Seq<PS>,
    close: Seq<char>,
)
    requires
        inside(s),
        vars_at(at, vs, ends, close),
        at[0] == s.ws(),
    ensures
        !s.punct(close).0 ==> var_list(s, close) == (
            Ok::<Seq<VarM>, ErrorM>(vs),
            ends.last().punct(close).1,
        ),
        s.punct(close).0 ==> var_list(s, close).0 == Ok::<Seq<VarM>, ErrorM>(Seq::empty()),
{
    reveal(var_list);
    lemma_spaced(s, close);
    lemma_vars_at(at, vs, ends, close, 0);
    assert(vs.take(0) =~= Seq::empty());
}

/// Whether names are read at the states `at`, with commas between them, and the
/// closing token behind the last.
pub open spec fn names_at(
    at: Seq<PS>,
    ns: Seq<Seq<char>>,
    ends: Seq<PS>,
    close: Seq<char>,
) -> bool {
    &&& 0 < ns.len() == at.len() == ends.len()
    &&& forall|i: int|
        0 <= i < ns.len() ==> (#[trigger] at[i]).ident() == (
            Ok::<Seq<char>, ErrorM>(ns[i]),
            ends[i],
        )
    &&& forall|i: int|
        0 <= i < ns.len() - 1 ==> (#[trigger] ends[i]).punct(","@) == (true, at[i + 1])
            && !at[i + 1].punct(close).0
    &&& inside(ends.last())
    &&& !ends.last().punct(","@).0
    &&& ends.last().punct(close).0
}

proof fn lemma_names_at(
    at: Seq<PS>,
    ns: Seq<Seq<char>>,
    ends: Seq<PS>,
    close: Seq<char>,
    k: int,
)
    requires
        names_at(at, ns, ends, close),
        0 <= k < ns.len(),
    ensures
        more_names(at[k], ns.take(k), close) == (
            Ok::<Seq<Seq<char>>, ErrorM>(ns),
            ends.last().punct(close).1,
        ),
    decreases ns.len() - k,
{
    assert(at[k].ident() == (Ok::<Seq<char>, ErrorM>(ns[k]), ends[k]));
    assert(ns.take(k).push(ns[k]) =~= ns.take(k + 1));
    if k + 1 < ns.len() {
        assert(ends[k].punct(","@) == (true, at[k + 1]));
        lemma_names_at(at, ns, ends, close, k + 1);
    } else {
        assert(ns.take(k + 1) =~= ns);
        lemma_spaced(ends[k], ","@);
        lemma_spaced(ends[k], close);
    }
}

/// A list of names holds those that stand in it, in their order.
pub proof fn law_lists_of_names(
    s: PS,
    at: Seq<PS>,
    ns: Seq<Seq<char>>,
    ends: Seq<PS>,
    close: Seq<char>,
)
    requires
        inside(s),
        names_at(at, ns, ends, close),
        at[0] == s.ws(),
    ensures
        !s.punct(close).0 ==> name_list(s, close) == (
            Ok::<Seq<Seq<char>>, ErrorM>(ns),
            ends.last().punct(close).1,
        ),
        s.punct(close).0 ==> name_list(s, close).0 == Ok::<Seq<Seq<char>>, ErrorM>(Seq::empty()),
{
    reveal(name_list);
    lemma_spaced(s, close);
    lemma_names_at(at, ns, ends, close, 0);
    assert(ns.take(0) =~= Seq::empty());
}

} // verus!
