//! What terms are made of.

use crate::ast::{BinOpM, TermM};
use crate::error::ErrorM;
use crate::laws::tokens::{inside, lemma_spaced, reads};
use crate::operators::{operator, Level};
use crate::signature::FunOptions;
use crate::state::{group_steps, PS};
use crate::terms::{
    ac_joined, ac_term, alg_app, angled, any_app, any_args, args, atom, atom_term, bin, braced,
    chain, diff_of, exp_term, fixed_literal, group, more_args, mset_term, mult_term, named_atom,
    nat_atom, nat_term, operand, prefix_app, quoted_atom, sigil_atom, term, term_args, tuple,
    union_term, xor_term,
};
use crate::vars::{arity_of, is_exp, pattern_var, ArityRes};
use vstd::prelude::*;

verus! {

broadcast use {group_steps, crate::tokens::group_lexer};

/// The signs of the operators: `++` and `+` join multisets, `%+` adds numbers,
/// `XOR` and `⊕` are exclusive or, `*` multiplies and `^` raises to a power. A
/// declared operator is written by its name.
pub proof fn law_signs_of_operators(s: PS)
    requires
        inside(s),
    ensures
        s.punct("++"@).0 ==> operator(s, Level::Mset).0 == Some(BinOpM::Union),
        s.punct("+"@).0 && !s.punct("+>"@).0 ==> operator(s, Level::Mset).0 == Some(BinOpM::Union),
        !s.punct("+"@).0 ==> operator(s, Level::Mset).0 is None,
        s.punct("%+"@).0 ==> operator(s, Level::Nat) == (
            Some(BinOpM::NatPlus),
            s.punct("%+"@).1,
        ),
        !s.punct("%+"@).0 ==> operator(s, Level::Nat).0 is None,
        s.kw("XOR"@).0 ==> operator(s, Level::Xor) == (Some(BinOpM::Xor), s.kw("XOR"@).1),
        !s.kw("XOR"@).0 && s.punct("⊕"@).0 ==> operator(s, Level::Xor) == (
            Some(BinOpM::Xor),
            s.punct("⊕"@).1,
        ),
        !s.kw("XOR"@).0 && !s.punct("⊕"@).0 ==> operator(s, Level::Xor).0 is None,
        s.punct("*"@).0 && !s.punct("*}"@).0 ==> operator(s, Level::Mult) == (
            Some(BinOpM::Mult),
            s.punct("*"@).1,
        ),
        !s.punct("*"@).0 || s.punct("*}"@).0 ==> operator(s, Level::Mult).0 is None,
        s.punct("^"@).0 ==> operator(s, Level::Exp) == (Some(BinOpM::Exp), s.punct("^"@).1),
        !s.punct("^"@).0 ==> operator(s, Level::Exp).0 is None,
        forall|k: usize|
            k < s.sig.ac_fun_syms.len() ==> {
                let f = s.sig.ac_fun_syms[k as int];
                if s.kw(f).0 {
                    #[trigger] operator(s, Level::Ac(k)) == (Some(BinOpM::AcFct(f)), s.kw(f).1)
                } else {
                    operator(s, Level::Ac(k)).0 is None
                }
            },
{
    reveal(operator);
    reveal_strlit("++");
    reveal_strlit("+");
    reveal_strlit("+>");
    reveal_strlit("*");
    reveal_strlit("*}");
    let b = crate::tokens::ws_end(s.src, s.at);
    lemma_first(s, "++"@);
    lemma_first(s, "+"@);
    lemma_first(s, "+>"@);
    lemma_first(s, "*"@);
    lemma_first(s, "*}"@);
    reveal(PS::punct);
    if s.punct("*}"@).0 {
        assert(s.src[b] == '*' && s.src[b + 1] == '}');
    }
    if s.punct("++"@).0 {
        assert(s.src[b] == '+');
    }
    if b + 1 < s.src.len() && s.src[b] == '*' && s.src[b + 1] == '}' {
        assert(crate::laws::tokens::written(s.src, b, "*}"@));
    }
    if s.ws().peek() == Some('*') {
        assert(crate::laws::tokens::written(s.src, b, "*"@));
    }
    if s.ws().peek() == Some('+') {
        assert(crate::laws::tokens::written(s.src, b, "+"@));
    }
}

proof fn lemma_first(s: PS, p: Seq<char>)
    requires
        inside(s),
        p.len() > 0,
    ensures
        s.punct(p).0 == crate::laws::tokens::written(s.src, crate::tokens::ws_end(s.src, s.at), p),
        s.punct(p).0 ==> s.ws().peek() == Some(p[0]),
{
    crate::laws::tokens::law_tokens_stand_in_the_text(s, p);
    if s.punct(p).0 {
        assert(s.src[crate::tokens::ws_end(s.src, s.at)] == p[0]);
    }
}

/// The terms joined from the left, each by the operator before it.
pub open spec fn joined_terms(ts: Seq<TermM>, ops: Seq<BinOpM>) -> TermM
    decreases ts.len(),
{
    if ts.len() <= 1 {
        ts[0]
    } else {
        TermM::BinOp(
            ops[ts.len() - 2],
            Box::new(joined_terms(ts.drop_last(), ops)),
            Box::new(ts.last()),
        )
    }
}

/// Whether an operand of the level is read at `s` as `t`, up to `e`.
#[verifier::opaque]
pub open spec fn operand_at(s: PS, lv: Level, eqn: bool, t: TermM, e: PS) -> bool {
    inside(s) && reads(s, operand(s, lv, eqn), t, e)
}

/// Whether operands of the level are read up to the states `ends`, each behind
/// the operator that stands behind the one before.
pub open spec fn operands_at(
    lv: Level,
    eqn: bool,
    ts: Seq<TermM>,
    ops: Seq<BinOpM>,
    ends: Seq<PS>,
) -> bool {
    &&& 0 < ts.len() == ends.len() == ops.len() + 1
    &&& forall|i: int|
        0 <= i < ts.len() - 1 ==> operator(#[trigger] ends[i], lv).0 == Some(ops[i]) && operand_at(
            operator(ends[i], lv).1,
            lv,
            eqn,
            ts[i + 1],
            ends[i + 1],
        )
    &&& operator(ends.last(), lv).0 is None
}

proof fn lemma_chain_step(e: PS, lv: Level, a: TermM, op: BinOpM, b: TermM, f: PS, eqn: bool)
    requires
        operator(e, lv).0 == Some(op),
        operand_at(operator(e, lv).1, lv, eqn, b, f),
    ensures
        chain(e, lv, a, eqn) == chain(f, lv, TermM::BinOp(op, Box::new(a), Box::new(b)), eqn),
{
    reveal(operand_at);
    reveal(bin);
}

proof fn lemma_chain_end(e: PS, lv: Level, a: TermM, eqn: bool)
    requires
        operator(e, lv).0 is None,
    ensures
        chain(e, lv, a, eqn) == (Ok::<TermM, ErrorM>(a), operator(e, lv).1),
{
}

proof fn lemma_operands(
    lv: Level,
    eqn: bool,
    ts: Seq<TermM>,
    ops: Seq<BinOpM>,
    ends: Seq<PS>,
    k: int,
)
    requires
        operands_at(lv, eqn, ts, ops, ends),
        0 <= k < ts.len(),
    ensures
        chain(ends[k], lv, joined_terms(ts.take(k + 1), ops), eqn) == (
            Ok::<TermM, ErrorM>(joined_terms(ts, ops)),
            operator(ends.last(), lv).1,
        ),
    decreases ts.len() - k,
{
    if k + 1 < ts.len() {
        assert(ts.take(k + 2).drop_last() =~= ts.take(k + 1));
        assert(ts.take(k + 2).last() == ts[k + 1]);
        assert(operator(ends[k], lv).0 == Some(ops[k]));
        lemma_chain_step(
            ends[k],
            lv,
            joined_terms(ts.take(k + 1), ops),
            ops[k],
            ts[k + 1],
            ends[k + 1],
            eqn,
        );
        lemma_operands(lv, eqn, ts, ops, ends, k + 1);
    } else {
        assert(ts.take(k + 1) =~= ts);
        lemma_chain_end(ends[k], lv, joined_terms(ts, ops), eqn);
    }
}

/// Operators of one level join their operands from the left.
pub proof fn law_operators_join_from_the_left(
    lv: Level,
    eqn: bool,
    ts: Seq<TermM>,
    ops: Seq<BinOpM>,
    ends: Seq<PS>,
)
    requires
        operands_at(lv, eqn, ts, ops, ends),
    ensures
        chain(ends[0], lv, ts[0], eqn) == (
            Ok::<TermM, ErrorM>(joined_terms(ts, ops)),
            operator(ends.last(), lv).1,
        ),
{
    lemma_operands(lv, eqn, ts, ops, ends, 0);
    assert(ts.take(1)[0] == ts[0]);
}

/// Which operators bind tighter: those of multisets join what those of numbers
/// join, these what exclusive or joins, this what multiplication joins, and
/// this what powers join. A level that is not turned on joins nothing, and
/// neither does any of them in an equation.
pub proof fn law_operators_that_bind_tighter(s: PS, t: TermM, e: PS)
    ensures
        !s.sig.enable_mset ==> union_term(s, false) == nat_term(s, false),
        !s.sig.enable_nat ==> nat_term(s, false) == xor_term(s, false),
        !s.sig.enable_xor ==> xor_term(s, false) == mult_term(s, false),
        !s.sig.enable_dh ==> mult_term(s, false) == ac_term(s, false),
        union_term(s, true) == nat_term(s, true),
        nat_term(s, true) == xor_term(s, true),
        xor_term(s, true) == mult_term(s, true),
        mult_term(s, true) == ac_term(s, true),
        s.sig.enable_mset && reads(s, nat_term(s, false), t, e) ==> union_term(s, false) == chain(
            e,
            Level::Mset,
            t,
            false,
        ),
        s.sig.enable_nat && reads(s, xor_term(s, false), t, e) ==> nat_term(s, false) == chain(
            e,
            Level::Nat,
            t,
            false,
        ),
        s.sig.enable_xor && reads(s, mult_term(s, false), t, e) ==> xor_term(s, false) == chain(
            e,
            Level::Xor,
            t,
            false,
        ),
        s.sig.enable_dh && reads(s, exp_term(s, false), t, e) ==> mult_term(s, false) == chain(
            e,
            Level::Mult,
            t,
            false,
        ),
        reads(s, ac_term(s, false), t, e) ==> exp_term(s, false) == chain(
            e,
            Level::Exp,
            t,
            false,
        ),
        operand(s, Level::Mset, false) == nat_term(s, false),
        operand(s, Level::Nat, false) == xor_term(s, false),
        operand(s, Level::Xor, false) == mult_term(s, false),
        operand(s, Level::Mult, false) == exp_term(s, false),
        operand(s, Level::Exp, false) == ac_term(s, false),
{
}

/// The term that is read is the loosest of these, and the side of an equation
/// the tightest.
pub proof fn law_terms_are_read(s: PS)
    ensures
        s.fwd(union_term(s, false).1) ==> term(s).0 == union_term(s, false).0,
        crate::terms::equation_side(s) == ac_term(s, true),
{
    reveal(term);
    reveal(crate::terms::equation_side);
}

/// The constants that are written by a sign of their own.
pub proof fn law_fixed_constants(s: PS)
    requires
        inside(s),
    ensures
        s.symbol("DH_neutral"@).0 ==> fixed_literal(s).0 == Ok::<Option<TermM>, ErrorM>(
            Some(TermM::DhNeutral),
        ),
        !s.symbol("DH_neutral"@).0 && (s.symbol("1:nat"@).0 || s.symbol("%1"@).0) ==> (
        fixed_literal(s).0 is Ok <==> s.sig.enable_nat),
        !s.symbol("DH_neutral"@).0 && (s.symbol("1:nat"@).0 || s.symbol("%1"@).0)
            && s.sig.enable_nat ==> fixed_literal(s).0 == Ok::<Option<TermM>, ErrorM>(
            Some(TermM::NatOne),
        ),
        !s.symbol("DH_neutral"@).0 && !s.symbol("1:nat"@).0 && !s.symbol("%1"@).0 && s.symbol(
            "1"@,
        ).0 ==> fixed_literal(s) == (
            Ok::<Option<TermM>, ErrorM>(Some(TermM::NumberOne)),
            s.symbol("1"@).1,
        ),
        fixed_literal(s).0 == Ok::<Option<TermM>, ErrorM>(None) ==> !s.symbol("1"@).0,
{
    reveal(fixed_literal);
}

/// A text in single quotes is a public constant; behind `~` it is a fresh one,
/// and behind `%` a number.
pub proof fn law_quoted_constants(s: PS, eqn: bool)
    ensures
        s.peek() == Some('\'') ==> (quoted_atom(s, eqn).0 matches Ok(t) ==> t is PubLit
            && s.quoted().0 == Some(t->PubLit_0)),
        s.peek() == Some('\'') && s.quoted().0 is Some ==> quoted_atom(s, eqn).0 is Ok,
        s.peek() == Some('~') && s.peek_at(1) == Some('\'') ==> (sigil_atom(s, eqn).0 matches Ok(
            t,
        ) ==> t is FreshLit && s.bump().quoted().0 == Some(t->FreshLit_0)),
        s.peek() == Some('~') && s.peek_at(1) == Some('\'') && s.bump().quoted().0 is Some
            ==> sigil_atom(s, eqn).0 is Ok,
        s.peek() == Some('%') && s.peek_at(1) == Some('\'') ==> (nat_atom(s, eqn).0 matches Ok(t)
            ==> t is NatLit && s.sig.enable_nat && s.bump().quoted().0 == Some(t->NatLit_0)),
{
}

/// A term in parentheses is the term between them.
pub proof fn law_terms_in_parentheses(s: PS, eqn: bool)
    ensures
        group(s, eqn).0 matches Ok(t) ==> mset_term(s, eqn).0 == Ok::<TermM, ErrorM>(t)
            && mset_term(s, eqn).1.punct(")"@).0,
{
    reveal(crate::basics::fail_after_term);
}

/// Whether a term is read at `s` as `t`, up to `e`.
#[verifier::opaque]
pub open spec fn term_at(s: PS, eqn: bool, t: TermM, e: PS) -> bool {
    inside(s) && reads(s, mset_term(s, eqn), t, e)
}

/// Whether terms are read at the states `at`, with commas between them and none
/// behind the last.
pub open spec fn terms_at(at: Seq<PS>, eqn: bool, ts: Seq<TermM>, ends: Seq<PS>) -> bool {
    &&& 0 < ts.len() == at.len() == ends.len()
    &&& forall|i: int| 0 <= i < ts.len() ==> term_at(#[trigger] at[i], eqn, ts[i], ends[i])
    &&& forall|i: int|
        0 <= i < ts.len() - 1 ==> (#[trigger] ends[i]).punct(","@) == (true, at[i + 1])
    &&& !ends.last().punct(","@).0
}

proof fn lemma_tuple_step(s: PS, acc: Seq<TermM>, eqn: bool, t: TermM, e: PS)
    requires
        term_at(s, eqn, t, e),
    ensures
        e.punct(","@).0 ==> tuple(s, acc, eqn) == tuple(e.punct(","@).1, acc.push(t), eqn),
        !e.punct(","@).0 && acc.len() == 0 ==> tuple(s, acc, eqn) == (
            Ok::<TermM, ErrorM>(t),
            e.ws(),
        ),
        !e.punct(","@).0 && acc.len() > 0 ==> tuple(s, acc, eqn) == (
            Ok::<TermM, ErrorM>(TermM::Pair(acc.push(t))),
            e.ws(),
        ),
        e.punct(","@).0 ==> any_args(s, acc, eqn) == any_args(e.punct(","@).1, acc.push(t), eqn),
        !e.punct(","@).0 ==> any_args(s, acc, eqn) == (
            Ok::<Seq<TermM>, ErrorM>(acc.push(t)),
            e.ws(),
        ),
{
    reveal(term_at);
    lemma_spaced(e, ","@);
}

proof fn lemma_tuples(at: Seq<PS>, eqn: bool, ts: Seq<TermM>, ends: Seq<PS>, k: int)
    requires
        terms_at(at, eqn, ts, ends),
        0 <= k < ts.len(),
    ensures
        tuple(at[k], ts.take(k), eqn) == (
            Ok::<TermM, ErrorM>(
                if ts.len() == 1 {
                    ts[0]
                } else {
                    TermM::Pair(ts)
                },
            ),
            ends.last().ws(),
        ),
        any_args(at[k], ts.take(k), eqn) == (Ok::<Seq<TermM>, ErrorM>(ts), ends.last().ws()),
    decreases ts.len() - k,
{
    assert(term_at(at[k], eqn, ts[k], ends[k]));
    assert(ts.take(k).push(ts[k]) =~= ts.take(k + 1));
    lemma_tuple_step(at[k], ts.take(k), eqn, ts[k], ends[k]);
    if k + 1 < ts.len() {
        assert(ends[k].punct(","@) == (true, at[k + 1]));
        lemma_tuples(at, eqn, ts, ends, k + 1);
    } else {
        assert(ts.take(k + 1) =~= ts);
    }
}

/// Terms with commas between them are a tuple of these terms, in their order;
/// one term is itself.
pub proof fn law_tuples(at: Seq<PS>, eqn: bool, ts: Seq<TermM>, ends: Seq<PS>)
    requires
        terms_at(at, eqn, ts, ends),
    ensures
        ts.len() == 1 ==> tuple(at[0], Seq::empty(), eqn) == (
            Ok::<TermM, ErrorM>(ts[0]),
            ends.last().ws(),
        ),
        ts.len() > 1 ==> tuple(at[0], Seq::empty(), eqn) == (
            Ok::<TermM, ErrorM>(TermM::Pair(ts)),
            ends.last().ws(),
        ),
{
    lemma_tuples(at, eqn, ts, ends, 0);
    assert(ts.take(0) =~= Seq::empty());
}

/// A tuple in angle brackets is the tuple between them.
pub proof fn law_angle_brackets(s: PS, eqn: bool)
    ensures
        angled(s, eqn).0 matches Ok(t) ==> tuple(s, Seq::empty(), eqn).0 == Ok::<TermM, ErrorM>(t)
            && tuple(s, Seq::empty(), eqn).1.punct(">"@).0,
{
    reveal(crate::basics::fail_after_term);
}

/// Whether terms are read at the states `at`, with commas between them and the
/// closing token behind the last.
pub open spec fn args_at(
    at: Seq<PS>,
    eqn: bool,
    ts: Seq<TermM>,
    ends: Seq<PS>,
    close: Seq<char>,
) -> bool {
    &&& 0 < ts.len() == at.len() == ends.len()
    &&& forall|i: int| 0 <= i < ts.len() ==> term_at(#[trigger] at[i], eqn, ts[i], ends[i])
    &&& forall|i: int|
        0 <= i < ts.len() - 1 ==> (#[trigger] ends[i]).punct(","@) == (true, at[i + 1])
            && !at[i + 1].punct(close).0
    &&& !ends.last().punct(","@).0
    &&& ends.last().punct(close).0
}

proof fn lemma_args_step(
    s: PS,
    acc: Seq<TermM>,
    close: Seq<char>,
    eqn: bool,
    t: TermM,
    e: PS,
)
    requires
        term_at(s, eqn, t, e),
    ensures
        e.punct(","@).0 && !e.punct(","@).1.punct(close).0 ==> more_args(s, acc, close, eqn)
            == more_args(e.punct(","@).1, acc.push(t), close, eqn),
        !e.punct(","@).0 && e.punct(close).0 ==> more_args(s, acc, close, eqn) == (
            Ok::<Seq<TermM>, ErrorM>(acc.push(t)),
            e.punct(close).1,
        ),
{
    reveal(term_at);
    lemma_spaced(e, ","@);
    lemma_spaced(e, close);
}

proof fn lemma_args_at(
    at: Seq<PS>,
    eqn: bool,
    ts: Seq<TermM>,
    ends: Seq<PS>,
    close: Seq<char>,
    k: int,
)
    requires
        args_at(at, eqn, ts, ends, close),
        0 <= k < ts.len(),
    ensures
        more_args(at[k], ts.take(k), close, eqn) == (
            Ok::<Seq<TermM>, ErrorM>(ts),
            ends.last().punct(close).1,
        ),
    decreases ts.len() - k,
{
    assert(term_at(at[k], eqn, ts[k], ends[k]));
    assert(ts.take(k).push(ts[k]) =~= ts.take(k + 1));
    lemma_args_step(at[k], ts.take(k), close, eqn, ts[k], ends[k]);
    if k + 1 < ts.len() {
        assert(ends[k].punct(","@) == (true, at[k + 1]));
        lemma_args_at(at, eqn, ts, ends, close, k + 1);
    } else {
        assert(ts.take(k + 1) =~= ts);
    }
}

/// The arguments in parentheses are the terms that stand there, in their order.
pub proof fn law_arguments(s: PS, at: Seq<PS>, ts: Seq<TermM>, ends: Seq<PS>)
    requires
        inside(s),
        args_at(at, false, ts, ends, ")"@),
        at[0] == s.ws(),
    ensures
        !s.punct(")"@).0 ==> term_args(s) == (
            Ok::<Seq<TermM>, ErrorM>(ts),
            ends.last().punct(")"@).1,
        ),
        s.punct(")"@).0 ==> term_args(s) == (
            Ok::<Seq<TermM>, ErrorM>(Seq::empty()),
            s.punct(")"@).1,
        ),
{
    reveal(term_args);
    lemma_spaced(s, ")"@);
    lemma_args_at(at, false, ts, ends, ")"@, 0);
    assert(ts.take(0) =~= Seq::empty());
}

/// `diff` has two arguments, in their order, and is read where it is turned on
/// and outside of equations only.
pub proof fn law_diff_terms(s: PS, ts: Seq<TermM>, eqn: bool)
    ensures
        diff_of(s, ts, eqn).0 is Ok <==> ts.len() == 2 && !eqn && s.sig.enable_diff,
        diff_of(s, ts, eqn).0 matches Ok(t) ==> t == TermM::Diff(
            Box::new(ts[0]),
            Box::new(ts[1]),
        ),
{
    reveal(diff_of);
    reveal(crate::terms::fail_as_term);
}

/// An application of a function with several arguments: it has as many as the
/// function takes, in their order. A power is written as one.
pub proof fn law_applications(s: PS, id: Seq<char>, opts: FunOptions, eqn: bool)
    requires
        inside(s),
        opts.arity != 1,
    ensures
        ({
            let a = args(s.bump().ws(), ")"@, eqn);
            let res = ArityRes::NoEq { opts };
            prefix_app(s, id, res, eqn).0 matches Ok(t) ==> {
                &&& a.0 is Ok
                &&& a.0->Ok_0.len() == opts.arity
                &&& !is_exp(res, id) ==> t == TermM::App(id, a.0->Ok_0)
                &&& is_exp(res, id) ==> t == TermM::BinOp(
                    BinOpM::Exp,
                    Box::new(a.0->Ok_0[0]),
                    Box::new(a.0->Ok_0[1]),
                )
            }
        }),
{
    reveal(bin);
}

/// A function with one argument takes all that stands in its parentheses: with
/// commas, that is a tuple.
pub proof fn law_applications_to_one(s: PS, id: Seq<char>, opts: FunOptions, eqn: bool)
    requires
        inside(s),
        opts.arity == 1,
    ensures
        prefix_app(s, id, ArityRes::NoEq { opts }, eqn).0 matches Ok(t) ==> t is App && t->App_0
            == id && t->App_1.len() == 1 && tuple(s.bump().ws(), Seq::empty(), eqn).0 == Ok::<
            TermM,
            ErrorM,
        >(t->App_1[0]),
{
}

/// The arguments of an associative operator are joined from the left; one
/// argument is itself.
pub proof fn law_associative_applications(f: Seq<char>, ts: Seq<TermM>)
    ensures
        ts.len() == 1 ==> ac_joined(f, ts) == ts[0],
        ts.len() > 1 ==> ac_joined(f, ts) == TermM::BinOp(
            BinOpM::AcFct(f),
            Box::new(ac_joined(f, ts.drop_last())),
            Box::new(ts.last()),
        ),
{
    reveal(bin);
}

/// `f{a}b` applies a function of two arguments to `a` and `b`.
pub proof fn law_braced_applications(s: PS, id: Seq<char>, res: ArityRes, eqn: bool)
    requires
        inside(s),
    ensures
        alg_app(s, id, res, eqn).0 matches Ok(t) ==> {
            let r = braced(s.bump().ws(), eqn);
            &&& r.0 is Ok
            &&& ({
                let (a, b) = r.0->Ok_0;
                match res {
                    ArityRes::Ac => t == TermM::BinOp(
                        BinOpM::AcFct(id),
                        Box::new(a),
                        Box::new(b),
                    ),
                    ArityRes::NoEq { opts } => opts.arity == 2 && t == (if is_exp(res, id) {
                        TermM::BinOp(BinOpM::Exp, Box::new(a), Box::new(b))
                    } else {
                        TermM::AlgApp(id, Box::new(a), Box::new(b))
                    }),
                }
            })
        },
{
    reveal(bin);
}

/// Between the braces stands a tuple, and behind them the other operand.
pub proof fn law_braces(s: PS, eqn: bool)
    ensures
        braced(s, eqn).0 matches Ok((a, b)) ==> {
            let t = tuple(s, Seq::empty(), eqn);
            &&& t.0 == Ok::<TermM, ErrorM>(a)
            &&& t.1.punct("}"@).0
            &&& atom_term(t.1.punct("}"@).1, eqn).0 == Ok::<TermM, ErrorM>(b)
        },
{
}

/// A name with a parenthesis behind it is applied where a function of that name
/// is known; where none is, and where no parenthesis or brace follows, the name
/// stands alone.
pub proof fn law_names_in_terms(s: PS, id: Seq<char>, e: PS, eqn: bool)
    requires
        s.name() == (Some(id), e),
        !(eqn && crate::vars::builtin_name(id)),
        s.mode.resolve,
        e.mode == s.mode,
    ensures
        ({
            let n = crate::terms::name_noted(e, s.at, id).ws();
            let call = n.peek() == Some('(') && !n.sees("(<)"@);
            &&& call && arity_of(n.sig, id) is None ==> named_atom(s, eqn)
                == crate::vars::bare_term(crate::terms::name_noted(n, s.at, id), id)
            &&& call ==> (arity_of(n.sig, id) matches Some(res) ==> ({
                let a = prefix_app(n, id, res, eqn);
                a.0 is Ok && n.fwd(a.1) ==> named_atom(s, eqn) == a
            }))
            &&& !call && n.peek() != Some('{') ==> named_atom(s, eqn) == crate::vars::bare_term(
                crate::terms::name_noted(n, s.at, id),
                id,
            )
        }),
{
}

/// In an equation the names of the builtins are refused.
pub proof fn law_builtins_in_equations(s: PS, id: Seq<char>, e: PS)
    requires
        s.name() == (Some(id), e),
        id == "exp"@ || id == "mult"@ || id == "inv"@ || id == "pmult"@ || id == "em"@ || id
            == "xor"@ || id == "zero"@ || id == "one"@ || id == "mun"@,
    ensures
        named_atom(s, true).0 is Err,
{
}

/// Where names are not looked up, a name with parentheses behind it is applied
/// to the terms between them, whatever it is.
pub proof fn law_applications_without_lookup(s: PS, id: Seq<char>, eqn: bool)
    requires
        inside(s),
        s.peek() == Some('('),
    ensures
        ({
            let p = s.bump().ws();
            let a = any_args(p.ws(), Seq::empty(), eqn);
            &&& p.punct(")"@).0 ==> any_app(s, id, eqn) == (
                Ok::<TermM, ErrorM>(TermM::App(id, Seq::empty())),
                p.punct(")"@).1,
            )
            &&& !p.punct(")"@).0 ==> (any_app(s, id, eqn).0 matches Ok(t) ==> a.0 is Ok && t
                == TermM::App(id, a.0->Ok_0))
        }),
{
    lemma_spaced(s.bump().ws(), ")"@);
}

/// What stands first in an operand decides what it is: a parenthesis opens a
/// term, an angle bracket a tuple.
pub proof fn law_starts_of_operands(s: PS, eqn: bool)
    requires
        inside(s),
        !s.mode.pat,
    ensures
        s.punct("("@).0 ==> atom(s, eqn) == group(s.punct("("@).1, eqn),
        !s.punct("("@).0 && s.ws().peek() == Some('<') && !s.ws().sees("<-"@) ==> atom(s, eqn)
            == angled(s.ws().bump().ws(), eqn),
        !s.punct("("@).0 && s.ws().peek() != Some('<') ==> (fixed_literal(s.ws()).0 matches Ok(
            Some(t),
        ) ==> atom(s, eqn) == (Ok::<TermM, ErrorM>(t), fixed_literal(s.ws()).1)),
{
    lemma_spaced(s, "("@);
}

/// In a pattern `=` before a variable asks for its value.
pub proof fn law_patterns(s: PS, eqn: bool)
    requires
        inside(s),
        s.mode.pat,
        s.punct("="@).0,
        !s.punct("=="@).0,
        !s.punct("=>"@).0,
    ensures
        atom(s, eqn).0 matches Ok(t) ==> t is PatMatch && pattern_var(s.ws().bump().ws()).0 == Ok::<
            TermM,
            ErrorM,
        >(*t->PatMatch_0),
{
    reveal_strlit("=");
    lemma_first(s, "="@);
    reveal(PS::punct);
}

} // verus!
