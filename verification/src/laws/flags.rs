//! What the conditions of `#ifdef` say.

use crate::ast::FlagM;
use crate::error::ErrorM;
use crate::flags::{
    flag_atom, flag_conjuncts, flag_disjuncts, flag_formula, flag_negation, holds,
    more_flag_conjuncts, more_flag_disjuncts,
};
use crate::laws::tokens::{behind, law_a_word_or_a_token, law_one_of_two_tokens};
use crate::state::{group_steps, PS};
use vstd::prelude::*;

verus! {

broadcast use {group_steps, crate::tokens::group_lexer};

/// Whether one of the tokens for "and" comes next, and for "or".
pub open spec fn and_next(s: PS) -> bool {
    s.punct("&"@).0 || s.punct("∧"@).0
}

pub open spec fn or_next(s: PS) -> bool {
    s.punct("|"@).0 || s.punct("∨"@).0
}

/// Reading a condition changes the position only.
proof fn lemma_flags_past(s: PS)
    requires
        0 <= s.at <= s.src.len(),
    ensures
        s.past(flag_atom(s).1),
        s.past(flag_negation(s).1),
        s.past(flag_conjuncts(s).1),
        s.past(flag_disjuncts(s).1),
    decreases s.rem(), 1int,
{
    let (open, s1) = s.punct("("@);
    if open {
        lemma_flags_past(s1);
    }
    let (neg, n1) = s.word_or("not"@, "¬"@);
    if neg {
        lemma_flags_past(n1);
    } else {
        let (open2, t1) = n1.punct("("@);
        if open2 {
            lemma_flags_past(t1);
        }
    }
    assert(s.past(flag_negation(s).1));
    if flag_negation(s).0 is Ok {
        lemma_more_past(flag_negation(s).1, flag_negation(s).0->Ok_0);
    }
    if flag_conjuncts(s).0 is Ok {
        lemma_more_past(flag_conjuncts(s).1, flag_conjuncts(s).0->Ok_0);
    }
}

proof fn lemma_more_past(s: PS, a: FlagM)
    requires
        0 <= s.at <= s.src.len(),
    ensures
        s.past(more_flag_conjuncts(s, a).1),
        s.past(more_flag_disjuncts(s, a).1),
    decreases s.rem(), 0int,
{
    let (more, s1) = s.either("&"@, "∧"@);
    if more {
        lemma_flags_past(s1);
        if let Ok(b) = flag_negation(s1).0 {
            lemma_more_past(flag_negation(s1).1, FlagM::And(Box::new(a), Box::new(b)));
        }
    }
    let (or, t1) = s.either("|"@, "∨"@);
    if or {
        lemma_flags_past(t1);
        if let Ok(b) = flag_conjuncts(t1).0 {
            lemma_more_past(flag_conjuncts(t1).1, FlagM::Or(Box::new(a), Box::new(b)));
        }
    }
}

/// The conjunction of the conditions, joined from the left, and the
/// disjunction.
pub open spec fn all_flags(fs: Seq<FlagM>) -> FlagM
    decreases fs.len(),
{
    if fs.len() <= 1 {
        fs[0]
    } else {
        FlagM::And(Box::new(all_flags(fs.drop_last())), Box::new(fs.last()))
    }
}

pub open spec fn any_flag(fs: Seq<FlagM>) -> FlagM
    decreases fs.len(),
{
    if fs.len() <= 1 {
        fs[0]
    } else {
        FlagM::Or(Box::new(any_flag(fs.drop_last())), Box::new(fs.last()))
    }
}

proof fn lemma_all_flags(fs: Seq<FlagM>, flags: Seq<Seq<char>>)
    requires
        fs.len() > 0,
    ensures
        holds(all_flags(fs), flags) <==> forall|i: int|
            0 <= i < fs.len() ==> holds(#[trigger] fs[i], flags),
        holds(any_flag(fs), flags) <==> exists|i: int|
            0 <= i < fs.len() && holds(#[trigger] fs[i], flags),
    decreases fs.len(),
{
    if fs.len() > 1 {
        let t = fs.drop_last();
        lemma_all_flags(t, flags);
        assert forall|i: int| 0 <= i < t.len() implies t[i] == fs[i] by {}
        assert(fs.last() == fs[fs.len() - 1]);
        assert forall|i: int| 0 <= i < fs.len() && i < t.len() implies fs[i] == #[trigger] t[i] by {}
        if holds(all_flags(fs), flags) {
            assert forall|i: int| 0 <= i < fs.len() implies holds(#[trigger] fs[i], flags) by {
                if i < t.len() {
                    assert(fs[i] == t[i]);
                }
            }
        }
        if exists|i: int| 0 <= i < fs.len() && holds(#[trigger] fs[i], flags) {
            let k = choose|i: int| 0 <= i < fs.len() && holds(#[trigger] fs[i], flags);
            if k < t.len() {
                assert(holds(t[k], flags));
            }
        }
    } else {
        assert(fs[0] == fs[fs.len() - 1]);
    }
}

/// Whether conditions stand at the states `at`, one behind the other, each read
/// by itself, with "and" between them and none behind the last.
pub open spec fn conjunction(at: Seq<PS>, fs: Seq<FlagM>) -> bool {
    &&& 0 < fs.len() == at.len()
    &&& 0 <= at[0].at <= at[0].src.len()
    &&& forall|i: int|
        0 <= i < fs.len() ==> flag_negation(#[trigger] at[i]).0 == Ok::<FlagM, ErrorM>(fs[i])
    &&& forall|i: int|
        0 <= i < fs.len() - 1 ==> {
            let e = flag_negation(#[trigger] at[i]).1;
            and_next(e) && at[i + 1] == behind(e, "&"@, "∧"@)
        }
    &&& !and_next(flag_negation(at.last()).1)
}

/// The same for disjunctions.
pub open spec fn disjunction(at: Seq<PS>, fs: Seq<FlagM>) -> bool {
    &&& 0 < fs.len() == at.len()
    &&& 0 <= at[0].at <= at[0].src.len()
    &&& forall|i: int|
        0 <= i < fs.len() ==> flag_conjuncts(#[trigger] at[i]).0 == Ok::<FlagM, ErrorM>(fs[i])
    &&& forall|i: int|
        0 <= i < fs.len() - 1 ==> {
            let e = flag_conjuncts(#[trigger] at[i]).1;
            or_next(e) && at[i + 1] == behind(e, "|"@, "∨"@)
        }
    &&& !or_next(flag_conjuncts(at.last()).1)
}

proof fn lemma_conjunction(at: Seq<PS>, fs: Seq<FlagM>, k: int)
    requires
        conjunction(at, fs),
        0 <= k < fs.len(),
        0 <= at[k].at <= at[k].src.len(),
    ensures
        more_flag_conjuncts(flag_negation(at[k]).1, all_flags(fs.take(k + 1))).0 == Ok::<
            FlagM,
            ErrorM,
        >(all_flags(fs)),
    decreases fs.len() - k,
{
    let e = flag_negation(at[k]).1;
    lemma_flags_past(at[k]);
    reveal_strlit("&");
    reveal_strlit("∧");
    law_one_of_two_tokens(e, "&"@, "∧"@);
    if k + 1 < fs.len() {
        lemma_flags_past(at[k + 1]);
        lemma_conjunction(at, fs, k + 1);
        assert(fs.take(k + 2).drop_last() =~= fs.take(k + 1));
        assert(flag_negation(at[k + 1]).0 == Ok::<FlagM, ErrorM>(fs[k + 1]));
    } else {
        assert(fs.take(k + 1) =~= fs);
    }
}

proof fn lemma_disjunction(at: Seq<PS>, fs: Seq<FlagM>, k: int)
    requires
        disjunction(at, fs),
        0 <= k < fs.len(),
        0 <= at[k].at <= at[k].src.len(),
    ensures
        more_flag_disjuncts(flag_conjuncts(at[k]).1, any_flag(fs.take(k + 1))).0 == Ok::<
            FlagM,
            ErrorM,
        >(any_flag(fs)),
    decreases fs.len() - k,
{
    let e = flag_conjuncts(at[k]).1;
    lemma_flags_past(at[k]);
    reveal_strlit("|");
    reveal_strlit("∨");
    law_one_of_two_tokens(e, "|"@, "∨"@);
    if k + 1 < fs.len() {
        lemma_flags_past(at[k + 1]);
        lemma_disjunction(at, fs, k + 1);
        assert(fs.take(k + 2).drop_last() =~= fs.take(k + 1));
        assert(flag_conjuncts(at[k + 1]).0 == Ok::<FlagM, ErrorM>(fs[k + 1]));
    } else {
        assert(fs.take(k + 1) =~= fs);
    }
}

/// Conditions with "and" between them hold together exactly where each of them
/// holds.
pub proof fn law_and_holds_where_all_hold(at: Seq<PS>, fs: Seq<FlagM>, flags: Seq<Seq<char>>)
    requires
        conjunction(at, fs),
    ensures
        flag_conjuncts(at[0]).0 is Ok,
        holds(flag_conjuncts(at[0]).0->Ok_0, flags) <==> forall|i: int|
            0 <= i < fs.len() ==> holds(#[trigger] fs[i], flags),
        flag_conjuncts(at[0]).0->Ok_0 == all_flags(fs),
{
    lemma_flags_past(at[0]);
    lemma_conjunction(at, fs, 0);
    assert(fs.take(1)[0] == fs[0]);
    lemma_all_flags(fs, flags);
}

/// Conditions with "or" between them hold together exactly where one of them
/// holds.
pub proof fn law_or_holds_where_one_holds(at: Seq<PS>, fs: Seq<FlagM>, flags: Seq<Seq<char>>)
    requires
        disjunction(at, fs),
    ensures
        flag_formula(at[0]).0 is Ok,
        holds(flag_formula(at[0]).0->Ok_0, flags) <==> exists|i: int|
            0 <= i < fs.len() && holds(#[trigger] fs[i], flags),
        flag_formula(at[0]).0->Ok_0 == any_flag(fs),
{
    reveal(flag_formula);
    lemma_flags_past(at[0]);
    lemma_disjunction(at, fs, 0);
    assert(fs.take(1)[0] == fs[0]);
    lemma_all_flags(fs, flags);
}

/// A negated condition holds exactly where the condition behind the negation
/// does not; it is negated where `not` or its symbol stands before it, and only
/// there.
pub proof fn law_negated_flags(s: PS, flags: Seq<Seq<char>>)
    requires
        0 <= s.at <= s.src.len(),
    ensures
        s.kw("not"@).0 ==> flag_negation(s).0 is Ok == flag_atom(s.kw("not"@).1).0 is Ok,
        s.kw("not"@).0 && flag_negation(s).0 is Ok ==> holds(flag_negation(s).0->Ok_0, flags)
            == !holds(flag_atom(s.kw("not"@).1).0->Ok_0, flags),
        !s.kw("not"@).0 && s.punct("¬"@).0 && flag_negation(s).0 is Ok ==> holds(
            flag_negation(s).0->Ok_0,
            flags,
        ) == !holds(flag_atom(s.punct("¬"@).1).0->Ok_0, flags),
        !s.kw("not"@).0 && !s.punct("¬"@).0 ==> flag_negation(s) == flag_atom(s.ws()),
{
    law_a_word_or_a_token(s, "not"@, "¬"@);
    reveal_strlit("¬");
    crate::laws::tokens::law_tokens_stand_in_the_text(s, "¬"@);
}

/// A condition in parentheses is the condition between them; without them it is
/// a flag, which holds exactly where it is among those that are set.
pub proof fn law_single_flags(s: PS, flags: Seq<Seq<char>>)
    requires
        0 <= s.at <= s.src.len(),
    ensures
        s.punct("("@).0 && flag_atom(s).0 is Ok ==> flag_atom(s).0 == flag_formula(
            s.punct("("@).1,
        ).0,
        !s.punct("("@).0 ==> (flag_atom(s).0 is Ok) == (s.ws().ident().0 is Ok),
        !s.punct("("@).0 && flag_atom(s).0 is Ok ==> holds(flag_atom(s).0->Ok_0, flags)
            == flags.contains(s.ws().ident().0->Ok_0),
{
    reveal(flag_formula);
    reveal_strlit("(");
    crate::laws::tokens::law_tokens_stand_in_the_text(s, "("@);
}

/// A flag that is named at `s`, by an identifier that is not the word `not`.
pub open spec fn flag_at(s: PS, name: Seq<char>, end: PS) -> bool {
    &&& 0 <= s.at <= s.src.len()
    &&& s.ident() == (Ok::<Seq<char>, ErrorM>(name), end)
    &&& !s.kw("not"@).0
    &&& !s.punct("¬"@).0
    &&& !s.punct("("@).0
}

proof fn lemma_flag_at(s: PS, name: Seq<char>, end: PS)
    requires
        flag_at(s, name, end),
    ensures
        flag_negation(s) == (Ok::<FlagM, ErrorM>(FlagM::Atom(name)), end),
{
    law_a_word_or_a_token(s, "not"@, "¬"@);
    reveal_strlit("¬");
    reveal_strlit("(");
    crate::laws::tokens::law_tokens_stand_in_the_text(s, "¬"@);
    crate::laws::tokens::law_tokens_stand_in_the_text(s.ws(), "("@);
    crate::laws::tokens::law_tokens_stand_in_the_text(s, "("@);
    crate::tokens::lemma_ws_end_idempotent(s.src, s.at);
    reveal(PS::ident);
    reveal(PS::name);
}

proof fn lemma_same_tokens(s: PS)
    requires
        0 <= s.at <= s.src.len(),
    ensures
        s.either("&"@, "∧"@).0 == and_next(s),
        s.either("|"@, "∨"@).0 == or_next(s),
        and_next(s) ==> s.either("&"@, "∧"@).1 == behind(s, "&"@, "∧"@),
        or_next(s) ==> s.either("|"@, "∨"@).1 == behind(s, "|"@, "∨"@),
        !and_next(s) ==> s.either("&"@, "∧"@).1 == s.ws(),
        s.ws().either("|"@, "∨"@) == s.either("|"@, "∨"@),
        s.ws().either("&"@, "∧"@) == s.either("&"@, "∧"@),
{
    reveal_strlit("&");
    reveal_strlit("∧");
    reveal_strlit("|");
    reveal_strlit("∨");
    law_one_of_two_tokens(s, "&"@, "∧"@);
    law_one_of_two_tokens(s, "|"@, "∨"@);
    reveal(PS::punct);
    reveal(PS::either);
    crate::tokens::lemma_ws_end_idempotent(s.src, s.at);
}

/// A condition that is a single flag holds exactly where the flag is set.
pub proof fn law_one_flag(s: PS, p: Seq<char>, e: PS, flags: Seq<Seq<char>>)
    requires
        flag_at(s, p, e),
        !and_next(e),
        !or_next(e),
    ensures
        flag_formula(s).0 is Ok,
        holds(flag_formula(s).0->Ok_0, flags) == flags.contains(p),
{
    reveal(flag_formula);
    lemma_flag_at(s, p, e);
    lemma_flags_past(s);
    lemma_same_tokens(e);
}

/// A condition on two flags with "and" between them holds exactly where both
/// flags are set.
pub proof fn law_two_flags_with_and(
    s: PS,
    p: Seq<char>,
    e: PS,
    q: Seq<char>,
    f: PS,
    flags: Seq<Seq<char>>,
)
    requires
        flag_at(s, p, e),
        and_next(e),
        flag_at(behind(e, "&"@, "∧"@), q, f),
        !and_next(f),
        !or_next(f),
    ensures
        flag_formula(s).0 is Ok,
        holds(flag_formula(s).0->Ok_0, flags) == (flags.contains(p) && flags.contains(q)),
{
    reveal(flag_formula);
    let m = behind(e, "&"@, "∧"@);
    lemma_flag_at(s, p, e);
    lemma_flag_at(m, q, f);
    lemma_flags_past(s);
    lemma_flags_past(m);
    lemma_same_tokens(e);
    lemma_same_tokens(f);
    let (a, b) = (FlagM::Atom(p), FlagM::Atom(q));
    let c = FlagM::And(Box::new(a), Box::new(b));
    assert(more_flag_conjuncts(f, c) == (Ok::<FlagM, ErrorM>(c), f.ws()));
    assert(more_flag_conjuncts(e, a) == more_flag_conjuncts(f, c));
    assert(more_flag_disjuncts(f.ws(), c).0 == Ok::<FlagM, ErrorM>(c));
    assert(holds(a, flags) == flags.contains(p));
    assert(holds(b, flags) == flags.contains(q));
}

/// A condition on two flags with "or" between them holds exactly where one of
/// the flags is set.
pub proof fn law_two_flags_with_or(
    s: PS,
    p: Seq<char>,
    e: PS,
    q: Seq<char>,
    f: PS,
    flags: Seq<Seq<char>>,
)
    requires
        flag_at(s, p, e),
        or_next(e),
        !and_next(e),
        flag_at(behind(e, "|"@, "∨"@), q, f),
        !and_next(f),
        !or_next(f),
    ensures
        flag_formula(s).0 is Ok,
        holds(flag_formula(s).0->Ok_0, flags) == (flags.contains(p) || flags.contains(q)),
{
    reveal(flag_formula);
    let m = behind(e, "|"@, "∨"@);
    lemma_flag_at(s, p, e);
    lemma_flag_at(m, q, f);
    lemma_flags_past(s);
    lemma_flags_past(m);
    lemma_same_tokens(e);
    lemma_same_tokens(f);
    let (a, b) = (FlagM::Atom(p), FlagM::Atom(q));
    let c = FlagM::Or(Box::new(a), Box::new(b));
    assert(flag_conjuncts(s) == (Ok::<FlagM, ErrorM>(a), e.ws()));
    assert(flag_conjuncts(m) == (Ok::<FlagM, ErrorM>(b), f.ws()));
    assert(more_flag_disjuncts(f.ws(), c).0 == Ok::<FlagM, ErrorM>(c));
    assert(more_flag_disjuncts(e.ws(), a) == more_flag_disjuncts(f.ws(), c));
    assert(holds(a, flags) == flags.contains(p));
    assert(holds(b, flags) == flags.contains(q));
}

} // verus!
