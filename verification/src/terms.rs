//! Terms.

use crate::ast::{BinOp, BinOpM, Term, TermM};
use crate::basics::{carried, fail_after_term, labels1, labels2, word_offset};
use crate::lexer::Pos;
use crate::error::{outcome, ErrorM, Message, MessageM, ParseError};
use crate::operators::{operator, Level};
use crate::model::{no_items, one_item, put};
use crate::state::{group_steps, step, Hangs, Parser, Step, PS};
use crate::text::{alphanumeric, chars_of, decimal, quote, quoted, to_decimal};
use crate::vars::{
    arity_of, bare_term, builtin_name, is_builtin_name, is_dh_exp, is_exp, pattern_var, var_term,
    ArityRes,
};
use vstd::prelude::*;

verus! {

broadcast use {
    group_steps,
    crate::tokens::group_lexer,
    crate::ast::group_models,
    crate::operators::lemma_operator,
};

pub open spec fn bin(op: BinOpM, a: TermM, b: TermM) -> TermM {
    TermM::BinOp(op, Box::new(a), Box::new(b))
}

/// The message for a misused operator.
pub open spec fn arity_message(id: Seq<char>, arity: int, used: int) -> Seq<char> {
    "operator `"@ + id + "' has arity "@ + decimal(arity as nat)
        + ", but here it is used with arity "@ + decimal(used as nat)
}

/// The message for a builtin name in an equation, and for such a macro.
pub open spec fn reserved_function_message(id: Seq<char>) -> Seq<char> {
    "`"@ + quoted(id) + "` is a reserved function name for builtins."@
}

/// Where the exception for a builtin name in an equation is raised.
pub open spec fn term_call_site() -> Seq<char> {
    "src/Theory/Text/Parser/Term.hs:92:9 in tamarin-prover-theory-1.13.0-8wixYaxm5uHCGl2uEzaKzP:Theory.Text.Parser.Term"@
}

/// The term of an associative-commutative symbol applied to arguments: the
/// arguments joined from the left; a single argument stands for itself.
pub open spec fn ac_joined(f: Seq<char>, ts: Seq<TermM>) -> TermM
    decreases ts.len(),
{
    if ts.len() == 0 {
        TermM::App(f, Seq::empty())
    } else if ts.len() == 1 {
        ts[0]
    } else {
        bin(BinOpM::AcFct(f), ac_joined(f, ts.drop_last()), ts.last())
    }
}

/// The state behind such an application: where it stands for its argument,
/// nothing of the argument hangs over.
pub open spec fn ac_ended(s: PS, ts: Seq<TermM>) -> PS {
    if ts.len() == 1 {
        PS { h: Hangs { var_dot: false, var_ident_end: None, ..s.h }, ..s }
    } else {
        s
    }
}

/// The state in which nothing hangs over from a variable.
pub open spec fn closed(s: PS) -> PS {
    PS { h: Hangs { var_dot: false, ..s.h }, ..s }
}

/// A literal that is a fixed token, if one comes next.
#[verifier::opaque]
pub open spec fn fixed_literal(s: PS) -> Step<Option<TermM>> {
    let (neutral, s1) = s.symbol("DH_neutral"@);
    let (nat_one, s2) = s.symbol("1:nat"@);
    let (short_one, s3) = s.symbol("%1"@);
    let (one, s4) = s.symbol("1"@);
    if neutral {
        (Ok(Some(TermM::DhNeutral)), s1)
    } else if nat_one {
        if s.sig.enable_nat {
            (Ok(Some(TermM::NatOne)), s2)
        } else {
            (
                Err(
                    s2.err_found(
                        "natural-number literal 1:nat requires the natural-numbers builtin"@,
                    ),
                ),
                s2,
            )
        }
    } else if short_one {
        if s.sig.enable_nat {
            (Ok(Some(TermM::NatOne)), s3)
        } else {
            (
                Err(
                    s3.err_found(
                        "natural-number literal %1 requires the natural-numbers builtin"@,
                    ),
                ),
                s3,
            )
        }
    } else if one {
        (Ok(Some(TermM::NumberOne)), s4)
    } else {
        (Ok(None), s)
    }
}

pub proof fn lemma_fixed_literal(s: PS)
    ensures
        fixed_literal(s).0 == Ok::<Option<TermM>, ErrorM>(None) ==> fixed_literal(s).1 == s,
{
    reveal(fixed_literal);
}

/// The difference of the arguments `ts` that were read up to `s`.
#[verifier::opaque]
pub open spec fn diff_of(s: PS, ts: Seq<TermM>, eqn: bool) -> Step<TermM> {
    if ts.len() != 2 {
        fail_as_term(s, "the diff operator requires exactly 2 arguments"@)
    } else if eqn {
        fail_as_term(s, "diff operator not allowed in equations"@)
    } else if !s.sig.enable_diff {
        fail_as_term(s, "diff operator found, but flag diff not set"@)
    } else {
        (Ok(TermM::Diff(Box::new(ts[0]), Box::new(ts[1]))), s)
    }
}

/// The error for a `diff` that ends at `a` without arguments.
#[verifier::opaque]
pub open spec fn diff_alone(a: PS) -> Step<TermM> {
    let b = a.ws();
    let found = seq![MessageM::SysUnExpect(b.token()), MessageM::Expect("term"@)];
    (
        Err(
            b.error(
                if b.at == a.at {
                    found.push(MessageM::UnExpect("reserved word \"diff\""@))
                } else {
                    found
                },
            ),
        ),
        b,
    )
}

/// A term: the operators of all levels, and what could have followed.
pub open spec fn mset_term(s: PS, eqn: bool) -> Step<TermM>
    decreases s.rem(), 30int, 0int,
{
    match step(s, union_term(s, eqn)) {
        (Err(e), s1) => (Err(e), s1),
        (Ok(t), s1) => (Ok(t), carried(s1, eqn)),
    }
}

/// Unions, where the signature has multisets.
pub open spec fn union_term(s: PS, eqn: bool) -> Step<TermM>
    decreases s.rem(), 28int, 0int,
{
    if !s.sig.enable_mset || eqn {
        nat_term(s, eqn)
    } else {
        match step(s, nat_term(s, eqn)) {
            (Err(e), s1) => (Err(e), s1),
            (Ok(t), s1) => chain(s1, Level::Mset, t, eqn),
        }
    }
}

/// Sums, where the signature has natural numbers.
pub open spec fn nat_term(s: PS, eqn: bool) -> Step<TermM>
    decreases s.rem(), 26int, 0int,
{
    if !s.sig.enable_nat || eqn {
        xor_term(s, eqn)
    } else {
        match step(s, xor_term(s, eqn)) {
            (Err(e), s1) => (Err(e), s1),
            (Ok(t), s1) => chain(s1, Level::Nat, t, eqn),
        }
    }
}

/// Exclusive-or, where the signature has it.
pub open spec fn xor_term(s: PS, eqn: bool) -> Step<TermM>
    decreases s.rem(), 24int, 0int,
{
    if !s.sig.enable_xor || eqn {
        mult_term(s, eqn)
    } else {
        match step(s, mult_term(s, eqn)) {
            (Err(e), s1) => (Err(e), s1),
            (Ok(t), s1) => chain(s1, Level::Xor, t, eqn),
        }
    }
}

/// Products, where the signature has Diffie-Hellman exponentiation.
pub open spec fn mult_term(s: PS, eqn: bool) -> Step<TermM>
    decreases s.rem(), 22int, 0int,
{
    if !s.sig.enable_dh || eqn {
        ac_term(s, eqn)
    } else {
        match step(s, exp_term(s, eqn)) {
            (Err(e), s1) => (Err(e), s1),
            (Ok(t), s1) => chain(s1, Level::Mult, t, eqn),
        }
    }
}

/// Exponentiations.
pub open spec fn exp_term(s: PS, eqn: bool) -> Step<TermM>
    decreases s.rem(), 20int, 0int,
{
    match step(s, ac_term(s, eqn)) {
        (Err(e), s1) => (Err(e), s1),
        (Ok(t), s1) => chain(s1, Level::Exp, t, eqn),
    }
}

/// Declared associative-commutative symbols, and what could have followed.
pub open spec fn ac_term(s: PS, eqn: bool) -> Step<TermM>
    decreases s.rem(), 18int, 0int,
{
    match step(s, ac_level(s, 0, eqn)) {
        (Err(e), s1) => (Err(e), s1),
        (Ok(t), s1) => (Ok(t), carried(s1, eqn)),
    }
}

/// The declared symbols from index `k` on; a later one binds tighter.
pub open spec fn ac_level(s: PS, k: int, eqn: bool) -> Step<TermM>
    decreases s.rem(), 16int, s.sig.ac_fun_syms.len() - k,
{
    if k < 0 || k >= s.sig.ac_fun_syms.len() {
        atom_term(s, eqn)
    } else {
        match step(s, ac_level(s, k + 1, eqn)) {
            (Err(e), s1) => (Err(e), s1),
            (Ok(t), s1) => chain(s1, Level::Ac(k as usize), t, eqn),
        }
    }
}

/// An operand of a level.
pub open spec fn operand(s: PS, lv: Level, eqn: bool) -> Step<TermM>
    decreases s.rem(), 29int, 0int,
{
    match lv {
        Level::Mset => nat_term(s, eqn),
        Level::Nat => xor_term(s, eqn),
        Level::Xor => mult_term(s, eqn),
        Level::Mult => exp_term(s, eqn),
        Level::Exp => ac_term(s, eqn),
        Level::Ac(k) => ac_level(s, k + 1, eqn),
    }
}

/// As many operators and operands of a level as follow `lhs`, joined from the left.
pub open spec fn chain(s: PS, lv: Level, lhs: TermM, eqn: bool) -> Step<TermM>
    decreases s.rem(), 0int, 0int,
{
    match operator(s, lv) {
        (Some(op), s1) => match step(s1, operand(s1, lv, eqn)) {
            (Err(e), s2) => (Err(e), s2),
            (Ok(rhs), s2) => chain(s2, lv, bin(op, lhs, rhs), eqn),
        },
        (None, s1) => (Ok(lhs), s1),
    }
}

/// An operand without infix operators.
pub open spec fn atom_term(s: PS, eqn: bool) -> Step<TermM>
    decreases s.rem(), 14int, 0int,
{
    match step(s, atom(s, eqn)) {
        (Err(e), s1) => (Err(e), s1),
        (Ok(t), s1) => (
            Ok(t),
            if t is Var || t is AlgApp || t is PatMatch {
                s1
            } else {
                closed(s1)
            },
        ),
    }
}

/// Patterns, parentheses, tuples and fixed literals, or else what [`sigil_atom`] reads.
pub open spec fn atom(s: PS, eqn: bool) -> Step<TermM>
    decreases s.rem(), 12int, 0int,
{
    let w = s.ws();
    if s.mode.pat && w.peek() == Some('=') && !w.sees("=="@) && !w.sees("=>"@) {
        match pattern_var(w.bump().ws()) {
            (Err(e), s1) => (Err(e), s1),
            (Ok(t), s1) => (Ok(TermM::PatMatch(Box::new(t))), s1),
        }
    } else {
        let (open, s1) = w.punct("("@);
        if open {
            group(s1, eqn)
        } else if s1.peek() == Some('<') && !s1.sees("<-"@) {
            angled(s1.bump().ws(), eqn)
        } else {
            match fixed_literal(s1) {
                (Ok(Some(t)), s2) => (Ok(t), s2),
                (Ok(None), _) => sigil_atom(s1, eqn),
                (Err(e), s2) => (Err(e), s2),
            }
        }
    }
}

/// A term in parentheses, behind the opening one.
pub open spec fn group(s: PS, eqn: bool) -> Step<TermM>
    decreases s.rem(), 31int, 0int,
{
    match step(s, mset_term(s, eqn)) {
        (Err(e), s1) => (Err(e), s1),
        (Ok(t), s1) => {
            let (ok, s2) = s1.punct(")"@);
            if ok {
                (Ok(t), closed(s2))
            } else {
                fail_after_term(s2, seq!["\")\""@])
            }
        },
    }
}

/// A tuple, behind the opening bracket.
pub open spec fn angled(s: PS, eqn: bool) -> Step<TermM>
    decreases s.rem(), 33int, 0int,
{
    match step(s, tuple(s, Seq::empty(), eqn)) {
        (Err(e), s1) => (Err(e), s1),
        (Ok(t), s1) => {
            let (ok, s2) = s1.punct(">"@);
            if ok {
                (Ok(t), closed(s2))
            } else {
                fail_after_term(s2, seq!["\",\""@, "\">\""@])
            }
        },
    }
}

/// The components of a tuple behind `items`; a single one stands for itself.
pub open spec fn tuple(s: PS, items: Seq<TermM>, eqn: bool) -> Step<TermM>
    decreases s.rem(), 32int, 0int,
{
    match step(s, mset_term(s, eqn)) {
        (Err(e), s1) => (Err(e), s1),
        (Ok(t), s1) => {
            let all = items.push(t);
            let (more, s2) = s1.punct(","@);
            if more {
                tuple(s2, all, eqn)
            } else if all.len() == 1 {
                (Ok(all[0]), s2)
            } else {
                (Ok(TermM::Pair(all)), s2)
            }
        },
    }
}

/// Fresh names and variables with a sign before them, or else what [`nat_atom`] reads.
pub open spec fn sigil_atom(s: PS, eqn: bool) -> Step<TermM>
    decreases s.rem(), 11int, 0int,
{
    if s.peek() == Some('~') && s.peek_at(1) == Some('\'') {
        match s.bump().quoted() {
            (Some(x), s1) => (Ok(TermM::FreshLit(x)), s1),
            (None, s1) => (Err(s1.err("bad fresh literal"@)), s1),
        }
    } else if s.peek() == Some('~') || s.peek() == Some('$') || s.peek() == Some('#') {
        match step(s, var_term(s)) {
            (Err(e), s1) => (Err(e), s1),
            (Ok(Some(t)), s1) => (Ok(t), s1),
            (Ok(None), s1) => nat_atom(s1, eqn),
        }
    } else {
        nat_atom(s, eqn)
    }
}

/// Names and variables of natural numbers, or else what [`quoted_atom`] reads.
pub open spec fn nat_atom(s: PS, eqn: bool) -> Step<TermM>
    decreases s.rem(), 10int, 0int,
{
    if s.peek() != Some('%') || s.peek_at(1) is None {
        quoted_atom(s, eqn)
    } else if s.peek_at(1) == Some('\'') {
        if !s.sig.enable_nat {
            (
                Err(s.bump().err_found("nat names requires the natural-numbers builtin"@)),
                s.bump(),
            )
        } else {
            match s.bump().quoted() {
                (Some(x), s1) => (Ok(TermM::NatLit(x)), s1),
                (None, s1) => (Err(s1.err("bad nat literal"@)), s1),
            }
        }
    } else if alphanumeric(s.peek_at(1)->0) {
        if !s.sig.enable_nat {
            (
                Err(
                    s.bump().err("nat-sorted variables requires the natural-numbers builtin"@),
                ),
                s.bump(),
            )
        } else {
            match step(s, var_term(s)) {
                (Err(e), s1) => (Err(e), s1),
                (Ok(Some(t)), s1) => (Ok(t), s1),
                (Ok(None), s1) => quoted_atom(s1, eqn),
            }
        }
    } else {
        quoted_atom(s, eqn)
    }
}

/// Public names, `diff`, or else what [`named_atom`] reads.
pub open spec fn quoted_atom(s: PS, eqn: bool) -> Step<TermM>
    decreases s.rem(), 9int, 0int,
{
    if s.peek() == Some('\'') {
        match s.quoted() {
            (Some(x), s1) => (Ok(TermM::PubLit(x)), s1),
            (None, s1) => (Err(s1.err("bad public literal"@)), s1),
        }
    } else if s.symbol("diff"@).0 {
        diff_atom(s, eqn)
    } else {
        named_atom(s, eqn)
    }
}

/// The difference of two terms, at the word `diff`.
pub open spec fn diff_atom(s: PS, eqn: bool) -> Step<TermM>
    decreases s.rem(), 7int, 0int,
{
    let word = s.ws();
    let a = word.bump().bump().bump().bump();
    let b = a.ws();
    if b.peek() == Some('(') {
        match step(b.bump(), diff_args(b.bump(), Seq::empty(), eqn)) {
            (Err(e), s1) => (Err(e), s1),
            (Ok(ts), s1) => match s1.need(")"@) {
                (Err(e), s2) => (Err(e), s2),
                (Ok(_), s2) => diff_of(s2, ts, eqn),
            },
        }
    } else {
        diff_alone(a)
    }
}

/// A plain message where a term was expected.
pub open spec fn fail_as_term(s: PS, msg: Seq<char>) -> Step<TermM> {
    let w = s.ws();
    (
        Err(
            w.error(
                seq![
                    MessageM::SysUnExpect(w.token()),
                    MessageM::Message(msg),
                    MessageM::Expect("term"@),
                ],
            ),
        ),
        w,
    )
}

/// The arguments of `diff` behind `acc`.
pub open spec fn diff_args(s: PS, acc: Seq<TermM>, eqn: bool) -> Step<Seq<TermM>>
    decreases s.rem(), 32int, 0int,
{
    let w = s.ws();
    if w.peek() == Some(')') {
        (Ok(acc), w)
    } else {
        match step(w, mset_term(w, eqn)) {
            (Err(e), s1) => (Err(e), s1),
            (Ok(t), s1) => {
                let (more, s2) = s1.punct(","@);
                if more {
                    diff_args(s2, acc.push(t), eqn)
                } else {
                    (Ok(acc.push(t)), s2)
                }
            },
        }
    }
}

/// The state that remembers where the identifier at `from` ended.
pub open spec fn name_noted(s: PS, from: int, id: Seq<char>) -> PS {
    PS {
        h: Hangs { last_ident_end: Some(word_offset(s.src, from, id.len() as int)), ..s.h },
        ..s
    }
}

/// An application, a constant or a variable.
pub open spec fn named_atom(s: PS, eqn: bool) -> Step<TermM>
    decreases s.rem(), 7int, 0int,
{
    match s.name() {
        (None, s1) => (Err(s1.err("expected term"@)), s1),
        (Some(id), s1) => if eqn && builtin_name(id) {
            (Err(s1.err_ghc(reserved_function_message(id), term_call_site())), s1)
        } else {
            let s2 = name_noted(s1, s.at, id).ws();
            if s2.peek() == Some('(') && !s2.sees("(<)"@) {
                applied(s2, s.at, id, eqn)
            } else if s2.peek() == Some('{') {
                alg_applied(s2, s.at, id, eqn)
            } else {
                bare_term(name_noted(s2, s.at, id), id)
            }
        },
    }
}

/// The identifier that stands at `from`, applied to what the parenthesis at `s` opens.
pub open spec fn applied(s: PS, from: int, id: Seq<char>, eqn: bool) -> Step<TermM>
    decreases s.rem(), 6int, 1int,
{
    if !s.mode.resolve {
        any_app(s, id, eqn)
    } else {
        match arity_of(s.sig, id) {
            Some(res) => or_bare(step(s, prefix_app(s, id, res, eqn)), s.at, from, id),
            None => bare_term(name_noted(s, from, id), id),
        }
    }
}

/// The same for what the brace at `s` opens.
pub open spec fn alg_applied(s: PS, from: int, id: Seq<char>, eqn: bool) -> Step<TermM>
    decreases s.rem(), 6int, 1int,
{
    if !s.mode.resolve {
        any_alg_app(s, id, eqn)
    } else {
        match arity_of(s.sig, id) {
            Some(res) => or_bare(step(s, alg_app(s, id, res, eqn)), s.at, from, id),
            None => bare_term(name_noted(s, from, id), id),
        }
    }
}

/// The application `r`, or where it failed the identifier alone: the parse
/// goes back to `back`. An exception stays.
pub open spec fn or_bare(r: Step<TermM>, back: int, from: int, id: Seq<char>) -> Step<TermM> {
    match r {
        (Ok(t), s1) => (Ok(t), s1),
        (Err(e), s1) => if e.ghc is Some {
            (Err(e), s1)
        } else {
            bare_term(name_noted(s1.to(back), from, id), id)
        },
    }
}

/// An application of a symbol that is not looked up, at the opening parenthesis.
pub open spec fn any_app(s: PS, id: Seq<char>, eqn: bool) -> Step<TermM>
    decreases s.rem(), 6int, 0int,
{
    let p = s.bump().ws();
    let (empty, s1) = p.punct(")"@);
    if s.peek() is None {
        (Err(s.err(Seq::empty())), s)
    } else if empty {
        (Ok(TermM::App(id, Seq::empty())), s1)
    } else {
        match step(s1, any_args(s1, Seq::empty(), eqn)) {
            (Err(e), s2) => (Err(e), s2),
            (Ok(ts), s2) => match s2.need(")"@) {
                (Err(e), s3) => (Err(e), s3),
                (Ok(_), s3) => (Ok(TermM::App(id, ts)), s3),
            },
        }
    }
}

/// The arguments of such an application behind `acc`.
pub open spec fn any_args(s: PS, acc: Seq<TermM>, eqn: bool) -> Step<Seq<TermM>>
    decreases s.rem(), 32int, 0int,
{
    match step(s, mset_term(s, eqn)) {
        (Err(e), s1) => (Err(e), s1),
        (Ok(t), s1) => {
            let (more, s2) = s1.punct(","@);
            if more {
                any_args(s2, acc.push(t), eqn)
            } else {
                (Ok(acc.push(t)), s2)
            }
        },
    }
}

/// `f{a}b` for a symbol that is not looked up, at the opening brace.
pub open spec fn any_alg_app(s: PS, id: Seq<char>, eqn: bool) -> Step<TermM>
    decreases s.rem(), 6int, 0int,
{
    let p = s.bump().ws();
    if s.peek() is None {
        (Err(s.err(Seq::empty())), s)
    } else {
        match braced(p, eqn) {
            (Err(e), s1) => (Err(e), s1),
            (Ok((a, b)), s1) => (Ok(TermM::AlgApp(id, Box::new(a), Box::new(b))), s1),
        }
    }
}

/// A tuple, a closing brace, and an operand.
pub open spec fn braced(s: PS, eqn: bool) -> Step<(TermM, TermM)>
    decreases s.rem(), 34int, 0int,
{
    match step(s, tuple(s, Seq::empty(), eqn)) {
        (Err(e), s1) => (Err(e), s1),
        (Ok(a), s1) => match s1.need("}"@) {
            (Err(e), s2) => (Err(e), s2),
            (Ok(_), s2) => match step(s2, atom_term(s2, eqn)) {
                (Err(e), s3) => (Err(e), s3),
                (Ok(b), s3) => (Ok((a, b)), s3),
            },
        },
    }
}

/// An application of a declared symbol, at the opening parenthesis. A symbol
/// of one argument takes a tuple; any other takes its number of arguments.
pub open spec fn prefix_app(s: PS, id: Seq<char>, res: ArityRes, eqn: bool) -> Step<TermM>
    decreases s.rem(), 6int, 0int,
{
    let p = s.bump().ws();
    if s.peek() is None {
        (Err(s.err(Seq::empty())), s)
    } else {
        match res {
            ArityRes::NoEq { opts } => if opts.arity == 1 {
                match step(p, tuple(p, Seq::empty(), eqn)) {
                    (Err(e), s1) => (Err(e), s1),
                    (Ok(t), s1) => match s1.need(")"@) {
                        (Err(e), s2) => (Err(e), s2),
                        (Ok(_), s2) => (Ok(TermM::App(id, seq![t])), s2),
                    },
                }
            } else {
                match step(p, args(p, ")"@, eqn)) {
                    (Err(e), s1) => (Err(e), s1),
                    (Ok(ts), s1) => if ts.len() != opts.arity {
                        (
                            Err(
                                s1.err(
                                    arity_message(id, opts.arity as int, ts.len() as int),
                                ),
                            ),
                            s1,
                        )
                    } else if is_exp(res, id) {
                        (Ok(bin(BinOpM::Exp, ts[0], ts[1])), s1)
                    } else {
                        (Ok(TermM::App(id, ts)), s1)
                    },
                }
            },
            ArityRes::Ac => match step(p, args(p, ")"@, eqn)) {
                (Err(e), s1) => (Err(e), s1),
                (Ok(ts), s1) => (Ok(ac_joined(id, ts)), ac_ended(s1, ts)),
            },
        }
    }
}

/// `f{a}b` for a declared symbol of two arguments, at the opening brace.
pub open spec fn alg_app(s: PS, id: Seq<char>, res: ArityRes, eqn: bool) -> Step<TermM>
    decreases s.rem(), 6int, 0int,
{
    let p = s.bump().ws();
    if s.peek() is None {
        (Err(s.err(Seq::empty())), s)
    } else {
        match braced(p, eqn) {
            (Err(e), s1) => (Err(e), s1),
            (Ok((a, b)), s1) => match res {
                ArityRes::Ac => (Ok(bin(BinOpM::AcFct(id), a, b)), s1),
                ArityRes::NoEq { opts } => if opts.arity != 2 {
                    (
                        Err(
                            s1.err(
                                "only operators of arity 2 can be written using the `op{t1}t2' notation"@,
                            ),
                        ),
                        s1,
                    )
                } else if is_exp(res, id) {
                    (Ok(bin(BinOpM::Exp, a, b)), s1)
                } else {
                    (Ok(TermM::AlgApp(id, Box::new(a), Box::new(b))), s1)
                },
            },
        }
    }
}

/// A list of terms that ends with `close`, behind the opening token. A comma
/// may stand behind the last one.
pub open spec fn args(s: PS, close: Seq<char>, eqn: bool) -> Step<Seq<TermM>>
    decreases s.rem(), 33int, 0int,
{
    let (empty, s1) = s.punct(close);
    if empty {
        (Ok(Seq::empty()), s1)
    } else {
        more_args(s1, Seq::empty(), close, eqn)
    }
}

/// The rest of such a list behind `acc`.
pub open spec fn more_args(s: PS, acc: Seq<TermM>, close: Seq<char>, eqn: bool) -> Step<Seq<TermM>>
    decreases s.rem(), 32int, 0int,
{
    match step(s, mset_term(s, eqn)) {
        (Err(e), s1) => (Err(e), s1),
        (Ok(t), s1) => {
            let (more, s2) = s1.punct(","@);
            if more && !s2.at_punct(close) {
                more_args(s2, acc.push(t), close, eqn)
            } else {
                list_end(s2, acc.push(t), close)
            }
        },
    }
}

/// The end of a list of `all`.
pub open spec fn list_end<T>(s: PS, all: Seq<T>, close: Seq<char>) -> Step<Seq<T>> {
    let (ok, s1) = s.punct(close);
    if ok {
        (Ok(all), s1)
    } else {
        fail_after_term(s1, seq!["\",\""@, quoted(close)])
    }
}

/// A term outside of equations.
#[verifier::opaque]
pub open spec fn term(s: PS) -> Step<TermM> {
    mset_term(s, false)
}

/// A term of an equation.
#[verifier::opaque]
pub open spec fn equation_side(s: PS) -> Step<TermM> {
    ac_term(s, true)
}

/// A list of terms that ends with a parenthesis.
#[verifier::opaque]
pub open spec fn term_args(s: PS) -> Step<Seq<TermM>> {
    args(s, ")"@, false)
}

fn bin_op_term(op: BinOp, lhs: Term, rhs: Term) -> (t: Term)
    ensures
        t.deep_view() == bin(op.deep_view(), lhs.deep_view(), rhs.deep_view()),
{
    Term::BinOp(op, Box::new(lhs), Box::new(rhs))
}

/// Whether the last token of the term is not that of a variable.
fn ends_atom(t: &Term) -> (r: bool)
    ensures
        r == !(t.deep_view() is Var || t.deep_view() is AlgApp || t.deep_view() is PatMatch),
{
    match t {
        Term::Var(_) => false,
        Term::AlgApp(_, _, _) => false,
        Term::PatMatch(_) => false,
        _ => true,
    }
}

/// The arguments of a symbol joined from the left.
fn ac_join(id: &str, ts: Vec<Term>) -> (t: Term)
    requires
        ts@.len() > 0,
    ensures
        t.deep_view() == ac_joined(id@, ts.deep_view()),
    decreases ts@.len(),
{
    let mut ts = ts;
    let ghost all = ts.deep_view();
    let last = match ts.pop() {
        Some(x) => x,
        None => Term::NumberOne,
    };
    assert(ts.deep_view() =~= all.drop_last());
    if ts.len() == 0 {
        last
    } else {
        let t = ac_join(id, ts);
        bin_op_term(BinOp::AcFct(id.to_string()), t, last)
    }
}

/// The only item of a list.
fn single(v: Vec<Term>) -> (t: Term)
    requires
        v@.len() == 1,
    ensures
        t.deep_view() == v.deep_view()[0],
{
    let mut v = v;
    match v.pop() {
        Some(x) => x,
        None => Term::NumberOne,
    }
}

/// The two items of a list.
fn both(v: Vec<Term>) -> (r: (Term, Term))
    requires
        v@.len() == 2,
    ensures
        r.0.deep_view() == v.deep_view()[0],
        r.1.deep_view() == v.deep_view()[1],
{
    let mut v = v;
    let b = match v.pop() {
        Some(x) => x,
        None => Term::NumberOne,
    };
    let a = match v.pop() {
        Some(x) => x,
        None => Term::NumberOne,
    };
    (a, b)
}

/// The message for a builtin name in an equation, and for such a macro.
pub fn reserved_function_text(id: &str) -> (r: String)
    ensures
        r@ == reserved_function_message(id@),
{
    let mut r = "`".to_string();
    r.push_str(&quote(id));
    r.push_str("` is a reserved function name for builtins.");
    r
}

fn term_reserved_name_call_site() -> (r: String)
    ensures
        r@ == term_call_site(),
{
    "src/Theory/Text/Parser/Term.hs:92:9 in tamarin-prover-theory-1.13.0-8wixYaxm5uHCGl2uEzaKzP:Theory.Text.Parser.Term".to_string()
}

fn misused(id: &str, arity: usize, used: usize) -> (r: String)
    ensures
        r@ == arity_message(id@, arity as int, used as int),
{
    let mut r = "operator `".to_string();
    r.push_str(id);
    r.push_str("' has arity ");
    r.push_str(&to_decimal(arity as u64));
    r.push_str(", but here it is used with arity ");
    r.push_str(&to_decimal(used as u64));
    r
}

impl Parser {
    /// A term; `eqn` inside equations.
    #[verifier::spinoff_prover]
    pub fn msetterm(&mut self, eqn: bool) -> (r: Result<Term, ParseError>)
        requires
            old(self).wf(),
        ensures
            final(self).wf(),
            (outcome(r), final(self)@) == mset_term(old(self)@, eqn),
            old(self)@.fwd(final(self)@),
        decreases old(self)@.rem(), 30int, 0int,
    {
        let t = self.msetterm_inner(eqn)?;
        self.finish_term_carry(eqn);
        Ok(t)
    }

    #[verifier::spinoff_prover]
    fn msetterm_inner(&mut self, eqn: bool) -> (r: Result<Term, ParseError>)
        requires
            old(self).wf(),
        ensures
            final(self).wf(),
            (outcome(r), final(self)@) == union_term(old(self)@, eqn),
            old(self)@.fwd(final(self)@),
        decreases old(self)@.rem(), 28int, 0int,
    {
        if !self.sig.enable_mset || eqn {
            return self.natterm(eqn);
        }
        let t = self.natterm(eqn)?;
        self.chainl1(Level::Mset, t, eqn)
    }

    #[verifier::spinoff_prover]
    fn natterm(&mut self, eqn: bool) -> (r: Result<Term, ParseError>)
        requires
            old(self).wf(),
        ensures
            final(self).wf(),
            (outcome(r), final(self)@) == nat_term(old(self)@, eqn),
            old(self)@.fwd(final(self)@),
        decreases old(self)@.rem(), 26int, 0int,
    {
        if !self.sig.enable_nat || eqn {
            return self.xorterm(eqn);
        }
        let t = self.xorterm(eqn)?;
        self.chainl1(Level::Nat, t, eqn)
    }

    #[verifier::spinoff_prover]
    fn xorterm(&mut self, eqn: bool) -> (r: Result<Term, ParseError>)
        requires
            old(self).wf(),
        ensures
            final(self).wf(),
            (outcome(r), final(self)@) == xor_term(old(self)@, eqn),
            old(self)@.fwd(final(self)@),
        decreases old(self)@.rem(), 24int, 0int,
    {
        if !self.sig.enable_xor || eqn {
            return self.multterm(eqn);
        }
        let t = self.multterm(eqn)?;
        self.chainl1(Level::Xor, t, eqn)
    }

    #[verifier::spinoff_prover]
    fn multterm(&mut self, eqn: bool) -> (r: Result<Term, ParseError>)
        requires
            old(self).wf(),
        ensures
            final(self).wf(),
            (outcome(r), final(self)@) == mult_term(old(self)@, eqn),
            old(self)@.fwd(final(self)@),
        decreases old(self)@.rem(), 22int, 0int,
    {
        if !self.sig.enable_dh || eqn {
            return self.acterm(eqn);
        }
        let t = self.expterm(eqn)?;
        self.chainl1(Level::Mult, t, eqn)
    }

    #[verifier::spinoff_prover]
    fn expterm(&mut self, eqn: bool) -> (r: Result<Term, ParseError>)
        requires
            old(self).wf(),
        ensures
            final(self).wf(),
            (outcome(r), final(self)@) == exp_term(old(self)@, eqn),
            old(self)@.fwd(final(self)@),
        decreases old(self)@.rem(), 20int, 0int,
    {
        let t = self.acterm(eqn)?;
        self.chainl1(Level::Exp, t, eqn)
    }

    /// Declared associative-commutative symbols.
    #[verifier::spinoff_prover]
    pub fn acterm(&mut self, eqn: bool) -> (r: Result<Term, ParseError>)
        requires
            old(self).wf(),
        ensures
            final(self).wf(),
            (outcome(r), final(self)@) == ac_term(old(self)@, eqn),
            old(self)@.fwd(final(self)@),
        decreases old(self)@.rem(), 18int, 0int,
    {
        let t = self.ac_chain(0, eqn)?;
        self.finish_term_carry(eqn);
        Ok(t)
    }

    #[verifier::spinoff_prover]
    fn ac_chain(&mut self, level: usize, eqn: bool) -> (r: Result<Term, ParseError>)
        requires
            old(self).wf(),
            level <= old(self)@.sig.ac_fun_syms.len(),
        ensures
            final(self).wf(),
            (outcome(r), final(self)@) == ac_level(old(self)@, level as int, eqn),
            old(self)@.fwd(final(self)@),
        decreases old(self)@.rem(), 16int, old(self)@.sig.ac_fun_syms.len() - level,
    {
        if level >= self.sig.ac_fun_syms.len() {
            return self.atom_term(eqn);
        }
        let t = self.ac_chain(level + 1, eqn)?;
        self.chainl1(Level::Ac(level), t, eqn)
    }

    #[verifier::spinoff_prover]
    fn infix_operand(&mut self, lv: Level, eqn: bool) -> (r: Result<Term, ParseError>)
        requires
            old(self).wf(),
            lv matches Level::Ac(k) ==> k < old(self)@.sig.ac_fun_syms.len(),
        ensures
            final(self).wf(),
            (outcome(r), final(self)@) == operand(old(self)@, lv, eqn),
            old(self)@.fwd(final(self)@),
        decreases old(self)@.rem(), 29int, 0int,
    {
        match lv {
            Level::Mset => self.natterm(eqn),
            Level::Nat => self.xorterm(eqn),
            Level::Xor => self.multterm(eqn),
            Level::Mult => self.expterm(eqn),
            Level::Exp => self.acterm(eqn),
            Level::Ac(k) => {
                let n: usize = self.sig.ac_fun_syms.len();
                assert(n == self@.sig.ac_fun_syms.len());
                self.ac_chain(k + 1, eqn)
            },
        }
    }

    /// As many operators and operands of a level as follow `lhs`.
    #[verifier::spinoff_prover]
    fn chainl1(&mut self, lv: Level, lhs: Term, eqn: bool) -> (r: Result<Term, ParseError>)
        requires
            old(self).wf(),
            lv matches Level::Ac(k) ==> k < old(self)@.sig.ac_fun_syms.len(),
        ensures
            final(self).wf(),
            (outcome(r), final(self)@) == chain(old(self)@, lv, lhs.deep_view(), eqn),
            old(self)@.fwd(final(self)@),
        decreases old(self)@.rem(), 0int, 0int,
    {
        let mut acc = lhs;
        let ghost target = chain(old(self)@, lv, acc.deep_view(), eqn);
        loop
            invariant
                self.wf(),
                lv matches Level::Ac(k) ==> k < self@.sig.ac_fun_syms.len(),
                old(self)@.fwd(self@),
                chain(self@, lv, acc.deep_view(), eqn) == target,
                target == chain(old(self)@, lv, lhs.deep_view(), eqn),
            decreases self@.rem(),
        {
            match self.infix_operator(lv) {
                Some(op) => {
                    let rhs = self.infix_operand(lv, eqn)?;
                    acc = bin_op_term(op, acc, rhs);
                },
                None => {
                    return Ok(acc);
                },
            }
        }
    }

    #[verifier::spinoff_prover]
    fn atom_term(&mut self, eqn: bool) -> (r: Result<Term, ParseError>)
        requires
            old(self).wf(),
        ensures
            final(self).wf(),
            (outcome(r), final(self)@) == atom_term(old(self)@, eqn),
            old(self)@.fwd(final(self)@),
        decreases old(self)@.rem(), 14int, 0int,
    {
        let t = self.atom_term_inner(eqn)?;
        if ends_atom(&t) {
            self.h.var_dot = false;
        }
        Ok(t)
    }

    #[verifier::spinoff_prover]
    fn atom_term_inner(&mut self, eqn: bool) -> (r: Result<Term, ParseError>)
        requires
            old(self).wf(),
        ensures
            final(self).wf(),
            (outcome(r), final(self)@) == atom(old(self)@, eqn),
            old(self)@.fwd(final(self)@),
        decreases old(self)@.rem(), 12int, 0int,
    {
        self.skip_ws();
        if self.mode.pat && self.peek() == Some('=') && !self.sees("==") && !self.sees("=>") {
            self.bump();
            self.skip_ws();
            let inner = self.pattern_var_atom()?;
            return Ok(Term::PatMatch(Box::new(inner)));
        }
        if self.try_punct("(") {
            return self.group_term(eqn);
        }
        if self.peek() == Some('<') && !self.sees("<-") {
            self.bump();
            self.skip_ws();
            return self.angled_term(eqn);
        }
        proof {
            lemma_fixed_literal(self@);
        }
        match self.fixed_literal_term()? {
            Some(t) => Ok(t),
            None => self.sigil_atom_term(eqn),
        }
    }

    #[verifier::spinoff_prover]
    fn fixed_literal_term(&mut self) -> (r: Result<Option<Term>, ParseError>)
        requires
            old(self).wf(),
        ensures
            final(self).wf(),
            (outcome(r), final(self)@) == fixed_literal(old(self)@),
            old(self)@.past(final(self)@),
    {
        proof {
            reveal(fixed_literal);
        }
        if self.try_symbol("DH_neutral") {
            return Ok(Some(Term::DhNeutral));
        }
        if self.try_symbol("1:nat") {
            if !self.sig.enable_nat {
                return Err(
                    self.err_unexpected_message(
                        "natural-number literal 1:nat requires the natural-numbers builtin",
                    ),
                );
            }
            return Ok(Some(Term::NatOne));
        }
        if self.try_symbol("%1") {
            if !self.sig.enable_nat {
                return Err(
                    self.err_unexpected_message(
                        "natural-number literal %1 requires the natural-numbers builtin",
                    ),
                );
            }
            return Ok(Some(Term::NatOne));
        }
        if self.try_symbol("1") {
            return Ok(Some(Term::NumberOne));
        }
        Ok(None)
    }

    #[verifier::spinoff_prover]
    fn group_term(&mut self, eqn: bool) -> (r: Result<Term, ParseError>)
        requires
            old(self).wf(),
        ensures
            final(self).wf(),
            (outcome(r), final(self)@) == group(old(self)@, eqn),
            old(self)@.fwd(final(self)@),
        decreases old(self)@.rem(), 31int, 0int,
    {
        let t = self.msetterm(eqn)?;
        if !self.try_punct(")") {
            return Err(self.err_expect_after_term(labels1("\")\"")));
        }
        self.h.var_dot = false;
        Ok(t)
    }

    #[verifier::spinoff_prover]
    fn angled_term(&mut self, eqn: bool) -> (r: Result<Term, ParseError>)
        requires
            old(self).wf(),
        ensures
            final(self).wf(),
            (outcome(r), final(self)@) == angled(old(self)@, eqn),
            old(self)@.fwd(final(self)@),
        decreases old(self)@.rem(), 33int, 0int,
    {
        let t = self.tuple_contents(eqn)?;
        if !self.try_punct(">") {
            return Err(self.err_expect_after_term(labels2("\",\"", "\">\"")));
        }
        self.h.var_dot = false;
        Ok(t)
    }

    /// One or more terms between commas, as a tuple.
    #[verifier::spinoff_prover]
    fn tuple_contents(&mut self, eqn: bool) -> (r: Result<Term, ParseError>)
        requires
            old(self).wf(),
        ensures
            final(self).wf(),
            (outcome(r), final(self)@) == tuple(old(self)@, Seq::empty(), eqn),
            old(self)@.fwd(final(self)@),
        decreases old(self)@.rem(), 32int, 0int,
    {
        let mut items = no_items::<Term>();
        loop
            invariant
                self.wf(),
                old(self)@.fwd(self@),
                tuple(self@, items.deep_view(), eqn) == tuple(old(self)@, Seq::empty(), eqn),
            decreases self@.rem(),
        {
            let t = self.msetterm(eqn)?;
            put(&mut items, t);
            if !self.try_punct(",") {
                if items.len() == 1 {
                    return Ok(single(items));
                }
                return Ok(Term::Pair(items));
            }
        }
    }

    #[verifier::spinoff_prover]
    fn sigil_atom_term(&mut self, eqn: bool) -> (r: Result<Term, ParseError>)
        requires
            old(self).wf(),
        ensures
            final(self).wf(),
            (outcome(r), final(self)@) == sigil_atom(old(self)@, eqn),
            old(self)@.fwd(final(self)@),
        decreases old(self)@.rem(), 11int, 0int,
    {
        let c = self.peek();
        if c == Some('~') && self.peek2() == Some('\'') {
            self.bump();
            return match self.single_quoted() {
                Some(x) => Ok(Term::FreshLit(x)),
                None => Err(self.err("bad fresh literal")),
            };
        }
        if c == Some('~') || c == Some('$') || c == Some('#') {
            match self.sorted_var_term()? {
                Some(t) => {
                    return Ok(t);
                },
                None => {},
            }
        }
        self.nat_atom_term(eqn)
    }

    #[verifier::spinoff_prover]
    fn nat_atom_term(&mut self, eqn: bool) -> (r: Result<Term, ParseError>)
        requires
            old(self).wf(),
        ensures
            final(self).wf(),
            (outcome(r), final(self)@) == nat_atom(old(self)@, eqn),
            old(self)@.fwd(final(self)@),
        decreases old(self)@.rem(), 10int, 0int,
    {
        if self.peek() != Some('%') {
            return self.quoted_atom_term(eqn);
        }
        match self.peek2() {
            Some(d) => {
                if d == '\'' {
                    let enabled = self.sig.enable_nat;
                    self.bump();
                    if !enabled {
                        return Err(
                            self.err_unexpected_message(
                                "nat names requires the natural-numbers builtin",
                            ),
                        );
                    }
                    return match self.single_quoted() {
                        Some(x) => Ok(Term::NatLit(x)),
                        None => Err(self.err("bad nat literal")),
                    };
                }
                if crate::text::is_word_char(d) {
                    if !self.sig.enable_nat {
                        self.bump();
                        return Err(
                            self.err(
                                "nat-sorted variables requires the natural-numbers builtin",
                            ),
                        );
                    }
                    match self.sorted_var_term()? {
                        Some(t) => {
                            return Ok(t);
                        },
                        None => {},
                    }
                }
            },
            None => {},
        }
        self.quoted_atom_term(eqn)
    }

    #[verifier::spinoff_prover]
    fn quoted_atom_term(&mut self, eqn: bool) -> (r: Result<Term, ParseError>)
        requires
            old(self).wf(),
        ensures
            final(self).wf(),
            (outcome(r), final(self)@) == quoted_atom(old(self)@, eqn),
            old(self)@.fwd(final(self)@),
        decreases old(self)@.rem(), 9int, 0int,
    {
        if self.peek() == Some('\'') {
            return match self.single_quoted() {
                Some(x) => Ok(Term::PubLit(x)),
                None => Err(self.err("bad public literal")),
            };
        }
        let save = self.save();
        let is_diff = self.try_symbol("diff");
        self.restore(save);
        if is_diff {
            self.diff_term(eqn)
        } else {
            self.named_term(eqn)
        }
    }

    #[verifier::spinoff_prover]
    fn err_fail_labelled(&mut self, msg: &str, label: &str) -> (e: ParseError)
        requires
            old(self).wf(),
        ensures
            final(self).wf(),
            final(self)@ == old(self)@.ws(),
            e.deep_view() == final(self)@.error(
                seq![
                    MessageM::SysUnExpect(final(self)@.token()),
                    MessageM::Message(msg@),
                    MessageM::Expect(label@),
                ],
            ),
            old(self)@.past(final(self)@),
    {
        self.skip_ws();
        let mut v = one_item(Message::SysUnExpect(self.unexpected_token()));
        put(&mut v, Message::Message(msg.to_string()));
        put(&mut v, Message::Expect(label.to_string()));
        assert(v.deep_view() =~= seq![
            MessageM::SysUnExpect(self@.token()),
            MessageM::Message(msg@),
            MessageM::Expect(label@),
        ]);
        self.error_here(v)
    }

    #[verifier::spinoff_prover]
    fn diff_term(&mut self, eqn: bool) -> (r: Result<Term, ParseError>)
        requires
            old(self).wf(),
        ensures
            final(self).wf(),
            (outcome(r), final(self)@) == diff_atom(old(self)@, eqn),
            old(self)@.fwd(final(self)@),
        decreases old(self)@.rem(), 7int, 0int,
    {
        self.skip_ws();
        self.bump();
        self.bump();
        self.bump();
        self.bump();
        let after_word = self.save();
        self.skip_ws();
        if self.peek() == Some('(') {
            self.bump();
            let ts = self.diff_arguments(eqn)?;
            self.require_punct(")")?;
            return self.diff_result(ts, eqn);
        }
        self.restore(after_word);
        self.diff_error()
    }

    #[verifier::spinoff_prover]
    fn diff_result(&mut self, ts: Vec<Term>, eqn: bool) -> (r: Result<Term, ParseError>)
        requires
            old(self).wf(),
        ensures
            final(self).wf(),
            (outcome(r), final(self)@) == diff_of(old(self)@, ts.deep_view(), eqn),
            old(self)@.past(final(self)@),
    {
        proof {
            reveal(diff_of);
        }
        if ts.len() != 2 {
            return Err(
                self.err_fail_labelled("the diff operator requires exactly 2 arguments", "term"),
            );
        }
        if eqn {
            return Err(self.err_fail_labelled("diff operator not allowed in equations", "term"));
        }
        if !self.sig.enable_diff {
            return Err(
                self.err_fail_labelled("diff operator found, but flag diff not set", "term"),
            );
        }
        let (a, b) = both(ts);
        Ok(Term::Diff(Box::new(a), Box::new(b)))
    }

    #[verifier::spinoff_prover]
    fn diff_error(&mut self) -> (r: Result<Term, ParseError>)
        requires
            old(self).wf(),
        ensures
            final(self).wf(),
            (outcome(r), final(self)@) == diff_alone(old(self)@),
            old(self)@.past(final(self)@),
    {
        proof {
            reveal(diff_alone);
        }
        let after_word = self.save();
        self.skip_ws();
        let pos = self.save();
        let mut v = one_item(Message::SysUnExpect(self.unexpected_token()));
        put(&mut v, Message::Expect("term".to_string()));
        assert(v.deep_view() =~= seq![
            MessageM::SysUnExpect(self@.token()),
            MessageM::Expect("term"@),
        ]);
        if pos.at == after_word.at {
            put(&mut v, Message::UnExpect("reserved word \"diff\"".to_string()));
        }
        Err(self.error_here(v))
    }

    #[verifier::spinoff_prover]
    fn diff_arguments(&mut self, eqn: bool) -> (r: Result<Vec<Term>, ParseError>)
        requires
            old(self).wf(),
        ensures
            final(self).wf(),
            (outcome(r), final(self)@) == diff_args(old(self)@, Seq::empty(), eqn),
            old(self)@.fwd(final(self)@),
        decreases old(self)@.rem(), 32int, 0int,
    {
        let mut ts = no_items::<Term>();
        loop
            invariant
                self.wf(),
                old(self)@.fwd(self@),
                diff_args(self@, ts.deep_view(), eqn) == diff_args(
                    old(self)@,
                    Seq::empty(),
                    eqn,
                ),
            decreases self@.rem(),
        {
            self.skip_ws();
            if self.peek() == Some(')') {
                return Ok(ts);
            }
            let t = self.msetterm(eqn)?;
            put(&mut ts, t);
            if !self.try_punct(",") {
                return Ok(ts);
            }
        }
    }

    #[verifier::spinoff_prover]
    fn named_term(&mut self, eqn: bool) -> (r: Result<Term, ParseError>)
        requires
            old(self).wf(),
        ensures
            final(self).wf(),
            (outcome(r), final(self)@) == named_atom(old(self)@, eqn),
            old(self)@.fwd(final(self)@),
        decreases old(self)@.rem(), 7int, 0int,
    {
        let start = self.save();
        let id = match self.identifier() {
            Some(id) => id,
            None => {
                return Err(self.err("expected term"));
            },
        };
        if eqn && is_builtin_name(&id) {
            return Err(self.err_ghc(reserved_function_text(&id), term_reserved_name_call_site()));
        }
        let n: usize = chars_of(&id).len();
        let end = self.ident_end_from(start, n);
        self.h.last_ident_end = Some(end);
        self.skip_ws();
        if self.peek() == Some('(') && !self.sees("(<)") {
            return self.applied_term(start, end, id, eqn);
        }
        if self.peek() == Some('{') {
            return self.alg_applied_term(start, end, id, eqn);
        }
        self.bare_ident_term(id)
    }

    #[verifier::spinoff_prover]
    fn applied_term(&mut self, start: Pos, end: usize, id: String, eqn: bool) -> (r: Result<
        Term,
        ParseError,
    >)
        requires
            old(self).wf(),
            old(self)@.peek() is Some,
            end == word_offset(old(self)@.src, start.at as int, id@.len() as int),
        ensures
            final(self).wf(),
            (outcome(r), final(self)@) == applied(old(self)@, start.at as int, id@, eqn),
            old(self)@.fwd(final(self)@),
        decreases old(self)@.rem(), 6int, 1int,
    {
        if !self.mode.resolve {
            return self.any_application(id, eqn);
        }
        match self.sig.lookup_arity(&id) {
            Some(res) => {
                let app = self.save();
                match self.prefix_app_args(&id, res, eqn) {
                    Ok(t) => {
                        return Ok(t);
                    },
                    Err(e) => {
                        if e.ghc_error.is_some() {
                            return Err(e);
                        }
                        self.restore(app);
                    },
                }
            },
            None => {},
        }
        self.h.last_ident_end = Some(end);
        self.bare_ident_term(id)
    }

    #[verifier::spinoff_prover]
    fn alg_applied_term(&mut self, start: Pos, end: usize, id: String, eqn: bool) -> (r: Result<
        Term,
        ParseError,
    >)
        requires
            old(self).wf(),
            old(self)@.peek() is Some,
            end == word_offset(old(self)@.src, start.at as int, id@.len() as int),
        ensures
            final(self).wf(),
            (outcome(r), final(self)@) == alg_applied(old(self)@, start.at as int, id@, eqn),
            old(self)@.fwd(final(self)@),
        decreases old(self)@.rem(), 6int, 1int,
    {
        if !self.mode.resolve {
            return self.any_alg_application(id, eqn);
        }
        match self.sig.lookup_arity(&id) {
            Some(res) => {
                let app = self.save();
                match self.binary_alg_app(&id, res, eqn) {
                    Ok(t) => {
                        return Ok(t);
                    },
                    Err(e) => {
                        if e.ghc_error.is_some() {
                            return Err(e);
                        }
                        self.restore(app);
                    },
                }
            },
            None => {},
        }
        self.h.last_ident_end = Some(end);
        self.bare_ident_term(id)
    }

    #[verifier::spinoff_prover]
    fn any_application(&mut self, id: String, eqn: bool) -> (r: Result<Term, ParseError>)
        requires
            old(self).wf(),
            old(self)@.peek() is Some,
        ensures
            final(self).wf(),
            (outcome(r), final(self)@) == any_app(old(self)@, id@, eqn),
            old(self)@.fwd(final(self)@),
        decreases old(self)@.rem(), 6int, 0int,
    {
        self.bump();
        self.skip_ws();
        if self.try_punct(")") {
            return Ok(Term::App(id, no_items::<Term>()));
        }
        let ts = self.any_arguments(eqn)?;
        self.require_punct(")")?;
        Ok(Term::App(id, ts))
    }

    #[verifier::spinoff_prover]
    fn any_arguments(&mut self, eqn: bool) -> (r: Result<Vec<Term>, ParseError>)
        requires
            old(self).wf(),
        ensures
            final(self).wf(),
            (outcome(r), final(self)@) == any_args(old(self)@, Seq::empty(), eqn),
            old(self)@.fwd(final(self)@),
        decreases old(self)@.rem(), 32int, 0int,
    {
        let mut ts = no_items::<Term>();
        loop
            invariant
                self.wf(),
                old(self)@.fwd(self@),
                any_args(self@, ts.deep_view(), eqn) == any_args(old(self)@, Seq::empty(), eqn),
            decreases self@.rem(),
        {
            let t = self.msetterm(eqn)?;
            put(&mut ts, t);
            if !self.try_punct(",") {
                return Ok(ts);
            }
        }
    }

    #[verifier::spinoff_prover]
    fn any_alg_application(&mut self, id: String, eqn: bool) -> (r: Result<Term, ParseError>)
        requires
            old(self).wf(),
            old(self)@.peek() is Some,
        ensures
            final(self).wf(),
            (outcome(r), final(self)@) == any_alg_app(old(self)@, id@, eqn),
            old(self)@.fwd(final(self)@),
        decreases old(self)@.rem(), 6int, 0int,
    {
        self.bump();
        self.skip_ws();
        let (a, b) = self.braced_terms(eqn)?;
        Ok(Term::AlgApp(id, Box::new(a), Box::new(b)))
    }

    #[verifier::spinoff_prover]
    fn braced_terms(&mut self, eqn: bool) -> (r: Result<(Term, Term), ParseError>)
        requires
            old(self).wf(),
        ensures
            final(self).wf(),
            (outcome(r), final(self)@) == braced(old(self)@, eqn),
            old(self)@.fwd(final(self)@),
        decreases old(self)@.rem(), 34int, 0int,
    {
        let a = self.tuple_contents(eqn)?;
        self.require_punct("}")?;
        let b = self.atom_term(eqn)?;
        Ok((a, b))
    }

    #[verifier::spinoff_prover]
    fn prefix_app_args(&mut self, id: &str, res: ArityRes, eqn: bool) -> (r: Result<
        Term,
        ParseError,
    >)
        requires
            old(self).wf(),
            old(self)@.peek() is Some,
        ensures
            final(self).wf(),
            (outcome(r), final(self)@) == prefix_app(old(self)@, id@, res, eqn),
            old(self)@.fwd(final(self)@),
        decreases old(self)@.rem(), 6int, 0int,
    {
        self.bump();
        self.skip_ws();
        match res {
            ArityRes::NoEq { opts } => {
                if opts.arity == 1 {
                    let arg = self.tuple_contents(eqn)?;
                    self.require_punct(")")?;
                    return Ok(Term::App(id.to_string(), one_item(arg)));
                }
                let ts = self.sep_end_terms(")", eqn)?;
                if ts.len() != opts.arity {
                    let m = misused(id, opts.arity, ts.len());
                    return Err(self.err(&m));
                }
                if is_dh_exp(res, id) {
                    let (a, b) = both(ts);
                    return Ok(bin_op_term(BinOp::Exp, a, b));
                }
                Ok(Term::App(id.to_string(), ts))
            },
            ArityRes::Ac => {
                let ts = self.sep_end_terms(")", eqn)?;
                Ok(self.ac_prefix_app(id, ts))
            },
        }
    }

    #[verifier::spinoff_prover]
    fn ac_prefix_app(&mut self, id: &str, ts: Vec<Term>) -> (t: Term)
        requires
            old(self).wf(),
        ensures
            final(self).wf(),
            t.deep_view() == ac_joined(id@, ts.deep_view()),
            final(self)@ == ac_ended(old(self)@, ts.deep_view()),
    {
        if ts.len() == 0 {
            return Term::App(id.to_string(), no_items::<Term>());
        }
        if ts.len() == 1 {
            self.h.var_dot = false;
            self.h.var_ident_end = None;
        }
        ac_join(id, ts)
    }

    #[verifier::spinoff_prover]
    fn binary_alg_app(&mut self, id: &str, res: ArityRes, eqn: bool) -> (r: Result<
        Term,
        ParseError,
    >)
        requires
            old(self).wf(),
            old(self)@.peek() is Some,
        ensures
            final(self).wf(),
            (outcome(r), final(self)@) == alg_app(old(self)@, id@, res, eqn),
            old(self)@.fwd(final(self)@),
        decreases old(self)@.rem(), 6int, 0int,
    {
        self.bump();
        self.skip_ws();
        let (a, b) = self.braced_terms(eqn)?;
        match res {
            ArityRes::Ac => Ok(bin_op_term(BinOp::AcFct(id.to_string()), a, b)),
            ArityRes::NoEq { opts } => {
                if opts.arity != 2 {
                    return Err(
                        self.err(
                            "only operators of arity 2 can be written using the `op{t1}t2' notation",
                        ),
                    );
                }
                if is_dh_exp(res, id) {
                    return Ok(bin_op_term(BinOp::Exp, a, b));
                }
                Ok(Term::AlgApp(id.to_string(), Box::new(a), Box::new(b)))
            },
        }
    }

    /// A list of terms that ends with `close`.
    #[verifier::spinoff_prover]
    pub fn sep_end_terms(&mut self, close: &str, eqn: bool) -> (r: Result<Vec<Term>, ParseError>)
        requires
            old(self).wf(),
        ensures
            final(self).wf(),
            (outcome(r), final(self)@) == args(old(self)@, close@, eqn),
            old(self)@.fwd(final(self)@),
        decreases old(self)@.rem(), 33int, 0int,
    {
        let mut v = no_items::<Term>();
        if self.try_punct(close) {
            return Ok(v);
        }
        loop
            invariant
                self.wf(),
                old(self)@.fwd(self@),
                more_args(self@, v.deep_view(), close@, eqn) == args(old(self)@, close@, eqn),
            decreases self@.rem(),
        {
            let t = self.msetterm(eqn)?;
            put(&mut v, t);
            let more = self.try_punct(",");
            if !more || self.peek_punct(close) {
                if self.try_punct(close) {
                    return Ok(v);
                }
                return Err(self.err_expect_after_term(labels2("\",\"", &quote(close))));
            }
        }
    }

    /// A term.
    #[verifier::spinoff_prover]
    pub fn term(&mut self) -> (r: Result<Term, ParseError>)
        requires
            old(self).wf(),
        ensures
            final(self).wf(),
            (outcome(r), final(self)@) == term(old(self)@),
            old(self)@.fwd(final(self)@),
    {
        proof {
            reveal(term);
        }
        self.msetterm(false)
    }

    /// One side of an equation.
    #[verifier::spinoff_prover]
    pub fn equation_term(&mut self) -> (r: Result<Term, ParseError>)
        requires
            old(self).wf(),
        ensures
            final(self).wf(),
            (outcome(r), final(self)@) == equation_side(old(self)@),
            old(self)@.fwd(final(self)@),
    {
        proof {
            reveal(equation_side);
        }
        self.acterm(true)
    }

    /// Terms up to a closing parenthesis.
    #[verifier::spinoff_prover]
    pub fn term_arguments(&mut self) -> (r: Result<Vec<Term>, ParseError>)
        requires
            old(self).wf(),
        ensures
            final(self).wf(),
            (outcome(r), final(self)@) == term_args(old(self)@),
            old(self)@.fwd(final(self)@),
    {
        proof {
            reveal(term_args);
        }
        self.sep_end_terms(")", false)
    }
}

} // verus!
