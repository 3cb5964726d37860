//! Formulas.

use crate::ast::{Atom, AtomM, Fact, FactM, Formula, FormulaM, LSort, Term, TermM, VarM, VarSpec};
use crate::basics::{labels1, word_offset};
use crate::error::{outcome, ErrorM, Message, MessageM, ParseError};
use crate::facts::fact;
use crate::lexer::{position_of, Pos};
use crate::model::{no_items, one_item, put};
use crate::state::{group_steps, step, Parser, Step, PS};
use crate::terms::term;
use crate::text::chars_of;
use crate::tokens::sees;
use crate::vars::{dot_index, variable};
use vstd::prelude::*;

verus! {

broadcast use {group_steps, crate::tokens::group_lexer, crate::ast::group_models};

/// The term as a point in time, where it can be one.
pub open spec fn node_sorted(t: TermM) -> TermM {
    match t {
        TermM::Var(v) => TermM::Var(VarM { sort: LSort::Node, ..v }),
        TermM::App(name, args) => if args.len() == 0 {
            TermM::Var(VarM { name, idx: 0, sort: LSort::Node, typ: None })
        } else {
            t
        },
        _ => t,
    }
}

/// The point in time that a term can be read as.
pub open spec fn node_operand(t: TermM, explicit_sort: bool) -> Option<TermM> {
    match t {
        TermM::Var(v) => if v.sort == LSort::Node || (v.sort == LSort::Msg && !explicit_sort) {
            Some(node_sorted(t))
        } else {
            None
        },
        TermM::App(_, args) => if args.len() == 0 {
            Some(node_sorted(t))
        } else {
            None
        },
        _ => None,
    }
}

/// Whether the term is a variable of that sort.
pub open spec fn node_var(t: TermM) -> bool {
    match t {
        TermM::Var(v) => v.sort == LSort::Node,
        _ => false,
    }
}

/// Whether a relation between terms comes next.
pub open spec fn relop(s: PS) -> bool {
    let w = s.ws();
    w.sees("<<"@) || w.sees("⊏"@) || w.sees("(<)"@) || (w.sees("="@) && !w.sees("=="@) && !w.sees(
        "=>"@,
    )) || (w.sees("<"@) && !w.sees("<="@) && !w.sees("<-"@))
}

/// The atom of an equality whose sides were read up to `s`.
#[verifier::opaque]
pub open spec fn equality(s: PS, lhs: TermM, lhs_sort: bool, rhs: TermM, rhs_sort: bool) -> Step<
    FormulaM,
> {
    if node_var(lhs) {
        match node_operand(lhs, lhs_sort) {
            None => (Err(s.err("expected node variable before `=`"@)), s),
            Some(a) => match node_operand(rhs, rhs_sort) {
                None => (Err(s.err("expected node variable after `=`"@)), s),
                Some(b) => (Ok(FormulaM::Atom(AtomM::Eq(a, b))), s),
            },
        }
    } else if node_var(rhs) {
        (Err(s.err("expected message term after `=`"@)), s)
    } else {
        (Ok(FormulaM::Atom(AtomM::Eq(lhs, rhs))), s)
    }
}

/// The atom of a comparison of points in time.
#[verifier::opaque]
pub open spec fn earlier(s: PS, lhs: TermM, lhs_sort: bool, rhs: TermM, rhs_sort: bool) -> Step<
    FormulaM,
> {
    match node_operand(lhs, lhs_sort) {
        None => (Err(s.err("expected node variable before `<`"@)), s),
        Some(a) => match node_operand(rhs, rhs_sort) {
            None => (Err(s.err("expected node variable after `<`"@)), s),
            Some(b) => (Ok(FormulaM::Atom(AtomM::Less(a, b))), s),
        },
    }
}

/// The predicate that a comparison of multisets stands for.
pub open spec fn smaller(lhs: TermM, rhs: TermM) -> FormulaM {
    FormulaM::Atom(
        AtomM::Pred(
            FactM {
                persistent: false,
                name: "Smaller"@,
                args: seq![lhs, rhs],
                annotations: Seq::empty(),
            },
        ),
    )
}

/// The error where no atom can be read at `s`, when a term ended at `after`.
#[verifier::opaque]
pub open spec fn no_atom(s: PS, after: int) -> Step<FormulaM> {
    let w = s.ws();
    let n = if w.peek() == Some('#') {
        w.bump()
    } else {
        w
    };
    match n.name() {
        (Some(id), s1) => {
            let (_, s2) = dot_index(s1);
            let s3 = s2.ws();
            (
                Err(
                    s3.error(
                        seq![MessageM::SysUnExpect(s3.token())] + (if word_offset(
                            n.src,
                            n.at,
                            id.len() as int,
                        ) == s3.offset() {
                            seq![MessageM::Expect("letter or digit"@)]
                        } else {
                            Seq::empty()
                        }) + (if s2.h.dot_index {
                            Seq::empty()
                        } else {
                            seq![MessageM::Expect("\".\""@)]
                        }) + seq![MessageM::Expect("\"=\""@)],
                    ),
                ),
                s3,
            )
        },
        (None, s1) => s1.to(after).fail_expect(
            if s.sig.enable_mset {
                seq!["subterm predicate"@, "multiset comparisson"@, "term equality"@]
            } else {
                seq!["subterm predicate"@, "term equality"@]
            },
        ),
    }
}

/// A relation between terms, or else a predicate.
#[verifier::opaque]
pub open spec fn relation(s: PS) -> Step<FormulaM> {
    match term(s) {
        (Err(e), s1) => (Err(e), s1),
        (Ok(lhs), s1) => {
            let (eq, s2) = s1.punct("="@);
            let (sub, s3) = s2.either("<<"@, "⊏"@);
            let (mset, s4) = s3.punct("(<)"@);
            let (less, s5) = s4.punct("<"@);
            if eq {
                match term(s2) {
                    (Err(e), t) => (Err(e), t),
                    (Ok(rhs), t) => equality(t, lhs, s1.h.sort_suffix, rhs, t.h.sort_suffix),
                }
            } else if sub {
                match term(s3) {
                    (Err(e), t) => (Err(e), t),
                    (Ok(rhs), t) => (Ok(FormulaM::Atom(AtomM::Subterm(lhs, rhs))), t),
                }
            } else if mset {
                if !s.sig.enable_mset {
                    (
                        Err(
                            s4.err(
                                "Need builtins: multiset to use multiset comparison operator."@,
                            ),
                        ),
                        s4,
                    )
                } else {
                    match term(s4) {
                        (Err(e), t) => (Err(e), t),
                        (Ok(rhs), t) => (Ok(smaller(lhs, rhs)), t),
                    }
                }
            } else if less {
                match term(s5) {
                    (Err(e), t) => (Err(e), t),
                    (Ok(rhs), t) => earlier(t, lhs, s1.h.sort_suffix, rhs, t.h.sort_suffix),
                }
            } else {
                match fact(s5.to(s.at)) {
                    (Ok(f), t) => (Ok(FormulaM::Atom(AtomM::Pred(f))), t),
                    (Err(_), t) => no_atom(t.to(s.at), s5.at),
                }
            }
        },
    }
}

/// The point in time of `last`.
#[verifier::opaque]
pub open spec fn last_atom(s: PS) -> Step<FormulaM> {
    match s.need("("@) {
        (Err(e), s1) => (Err(e), s1),
        (Ok(_), s1) => match term(s1) {
            (Err(e), s2) => (Err(e), s2),
            (Ok(t), s2) => match s2.need(")"@) {
                (Err(e), s3) => (Err(e), s3),
                (Ok(_), s3) => (Ok(FormulaM::Atom(AtomM::Last(node_sorted(t)))), s3),
            },
        },
    }
}

/// An atomic formula.
#[verifier::opaque]
pub open spec fn atom_formula(s: PS) -> Step<FormulaM> {
    let (last, s1) = s.kw("last"@);
    if last {
        last_atom(s1)
    } else {
        match fact(s1) {
            (Ok(f), s2) => {
                let (at, s3) = s2.punct("@"@);
                if at {
                    match term(s3) {
                        (Err(e), s4) => (Err(e), s4),
                        (Ok(t), s4) => (
                            Ok(FormulaM::Atom(AtomM::Action(f, node_sorted(t)))),
                            s4,
                        ),
                    }
                } else if !relop(s3) {
                    (Ok(FormulaM::Atom(AtomM::Pred(f))), s3.ws())
                } else {
                    relation(s3.to(s1.at))
                }
            },
            (Err(_), s2) => relation(s2.to(s1.at)),
        }
    }
}

/// The variables that a quantifier binds, behind `acc`, and the dot.
pub open spec fn binders(s: PS, acc: Seq<VarM>) -> Step<Seq<VarM>>
    decreases s.rem(),
{
    let w = s.ws();
    if w.peek() == Some('.') {
        match w.need("."@) {
            (Ok(_), s1) => (Ok(acc), s1),
            (Err(e), s1) => (Err(e), s1),
        }
    } else {
        match variable(w) {
            (Err(e), s1) => (Err(e), s1),
            (Ok(v), s1) => if w.fwd(s1) && w.at < s1.at {
                binders(s1, acc.push(v))
            } else {
                (Err(s1.err(Seq::empty())), s1)
            },
        }
    }
}

/// The variables that a quantifier binds, and the dot.
#[verifier::opaque]
pub open spec fn bound_vars(s: PS) -> Step<Seq<VarM>> {
    binders(s, Seq::empty())
}

pub open spec fn iff(s: PS) -> Step<FormulaM>
    decreases s.rem(), 10int,
{
    match step(s, implies(s)) {
        (Err(e), s1) => (Err(e), s1),
        (Ok(a), s1) => {
            let (more, s2) = s1.either("<=>"@, "⇔"@);
            if more {
                match implies(s2) {
                    (Err(e), s3) => (Err(e), s3),
                    (Ok(b), s3) => (Ok(FormulaM::Iff(Box::new(a), Box::new(b))), s3),
                }
            } else {
                (Ok(a), s2)
            }
        },
    }
}

pub open spec fn implies(s: PS) -> Step<FormulaM>
    decreases s.rem(), 9int,
{
    match step(s, disjuncts(s)) {
        (Err(e), s1) => (Err(e), s1),
        (Ok(a), s1) => {
            let (more, s2) = s1.either("==>"@, "⇒"@);
            if more {
                match implies(s2) {
                    (Err(e), s3) => (Err(e), s3),
                    (Ok(b), s3) => (Ok(FormulaM::Implies(Box::new(a), Box::new(b))), s3),
                }
            } else {
                (Ok(a), s2)
            }
        },
    }
}

pub open spec fn disjuncts(s: PS) -> Step<FormulaM>
    decreases s.rem(), 8int,
{
    match step(s, conjuncts(s)) {
        (Err(e), s1) => (Err(e), s1),
        (Ok(a), s1) => more_disjuncts(s1, a),
    }
}

pub open spec fn more_disjuncts(s: PS, a: FormulaM) -> Step<FormulaM>
    decreases s.rem(), 0int,
{
    let (more, s1) = s.either("|"@, "∨"@);
    if more {
        match step(s1, conjuncts(s1)) {
            (Err(e), s2) => (Err(e), s2),
            (Ok(b), s2) => more_disjuncts(s2, FormulaM::Or(Box::new(a), Box::new(b))),
        }
    } else {
        (Ok(a), s1)
    }
}

pub open spec fn conjuncts(s: PS) -> Step<FormulaM>
    decreases s.rem(), 7int,
{
    match step(s, negation(s)) {
        (Err(e), s1) => (Err(e), s1),
        (Ok(a), s1) => more_conjuncts(s1, a),
    }
}

pub open spec fn more_conjuncts(s: PS, a: FormulaM) -> Step<FormulaM>
    decreases s.rem(), 0int,
{
    let (more, s1) = s.either("&"@, "∧"@);
    if more {
        match step(s1, negation(s1)) {
            (Err(e), s2) => (Err(e), s2),
            (Ok(b), s2) => more_conjuncts(s2, FormulaM::And(Box::new(a), Box::new(b))),
        }
    } else {
        (Ok(a), s1)
    }
}

pub open spec fn negation(s: PS) -> Step<FormulaM>
    decreases s.rem(), 6int,
{
    let (neg, s1) = s.word_or("not"@, "¬"@);
    if neg {
        match fatom(s1) {
            (Err(e), s2) => (Err(e), s2),
            (Ok(a), s2) => (Ok(FormulaM::Not(Box::new(a))), s2),
        }
    } else {
        fatom(s1)
    }
}

pub open spec fn fatom(s: PS) -> Step<FormulaM>
    decreases s.rem(), 5int,
{
    let (ff, s1) = s.ws().word_or("F"@, "⊥"@);
    let (tt, s2) = s1.word_or("T"@, "⊤"@);
    let (all, s3) = s2.word_or("All"@, "∀"@);
    let (ex, s4) = s3.word_or("Ex"@, "∃"@);
    if ff {
        (Ok(FormulaM::False), s1)
    } else if tt {
        (Ok(FormulaM::True), s2)
    } else if all {
        quantified(s3, true)
    } else if ex {
        quantified(s4, false)
    } else if s4.peek() == Some('(') {
        grouped(s4)
    } else {
        atom_formula(s4)
    }
}

/// A formula in parentheses, or else an atom that starts with a parenthesis.
pub open spec fn grouped(s: PS) -> Step<FormulaM>
    decreases s.rem(), 4int,
{
    let p = s.bump().ws();
    if s.peek() is None {
        (Err(s.err(Seq::empty())), s)
    } else {
        match step(p, iff(p)) {
            (Ok(f), s1) => {
                let (close, s2) = s1.punct(")"@);
                if close {
                    (Ok(f), s2)
                } else {
                    atom_formula(s2.to(s.at))
                }
            },
            (Err(_), s1) => atom_formula(s1.to(s.at)),
        }
    }
}

pub open spec fn quantified(s: PS, all: bool) -> Step<FormulaM>
    decreases s.rem(), 11int,
{
    match step(s, bound_vars(s)) {
        (Err(e), s1) => (Err(e), s1),
        (Ok(vs), s1) => match iff(s1) {
            (Err(e), s2) => (Err(e), s2),
            (Ok(f), s2) => (Ok(bound(all, vs, f)), s2),
        },
    }
}

/// The formula under a quantifier.
#[verifier::opaque]
pub open spec fn bound(all: bool, vs: Seq<VarM>, f: FormulaM) -> FormulaM {
    if all {
        FormulaM::Forall(vs, Box::new(f))
    } else {
        FormulaM::Exists(vs, Box::new(f))
    }
}

/// A formula.
#[verifier::opaque]
pub open spec fn formula(s: PS) -> Step<FormulaM> {
    iff(s)
}

/// The error where the quote behind a formula is missing.
#[verifier::opaque]
pub open spec fn fail_formula_end<T>(s: PS) -> Step<T> {
    let w = s.ws();
    (
        Err(
            w.err_labels(
                (if w.h.annot == Some(w.offset()) {
                    seq!["\"[\""@]
                } else {
                    Seq::empty()
                }) + seq![
                    "\"&\""@,
                    "\"∧\""@,
                    "\"|\""@,
                    "\"∨\""@,
                    "\"==>\""@,
                    "\"⇒\""@,
                    "\"<=>\""@,
                    "\"⇔\""@,
                    "\"\"\""@,
                ],
            ),
        ),
        w,
    )
}

fn to_node(t: Term) -> (r: Term)
    ensures
        r.deep_view() == node_sorted(t.deep_view()),
{
    match t {
        Term::Var(v) => Term::Var(VarSpec { sort: LSort::Node, ..v }),
        Term::App(name, args) => {
            if args.len() == 0 {
                Term::Var(VarSpec { name, idx: 0, sort: LSort::Node, typ: None })
            } else {
                Term::App(name, args)
            }
        },
        t => t,
    }
}

fn to_node_operand(t: Term, explicit_sort: bool) -> (r: Option<Term>)
    ensures
        r.deep_view() == node_operand(t.deep_view(), explicit_sort),
{
    let ok = match &t {
        Term::Var(v) => v.sort == LSort::Node || (v.sort == LSort::Msg && !explicit_sort),
        Term::App(_, args) => args.len() == 0,
        _ => false,
    };
    if ok {
        Some(to_node(t))
    } else {
        None
    }
}

fn bind(all: bool, vs: Vec<VarSpec>, f: Formula) -> (r: Formula)
    ensures
        r.deep_view() == bound(all, vs.deep_view(), f.deep_view()),
{
    proof {
        reveal(bound);
    }
    if all {
        Formula::Forall(vs, Box::new(f))
    } else {
        Formula::Exists(vs, Box::new(f))
    }
}

fn is_node_var(t: &Term) -> (r: bool)
    ensures
        r == node_var(t.deep_view()),
{
    match t {
        Term::Var(v) => v.sort == LSort::Node,
        _ => false,
    }
}

fn smaller_atom(lhs: Term, rhs: Term) -> (r: Formula)
    ensures
        r.deep_view() == smaller(lhs.deep_view(), rhs.deep_view()),
{
    let mut args = one_item(lhs);
    put(&mut args, rhs);
    assert(args.deep_view() =~= seq![lhs.deep_view(), rhs.deep_view()]);
    Formula::Atom(
        Atom::Pred(
            Fact {
                persistent: false,
                name: "Smaller".to_string(),
                args,
                annotations: no_items::<crate::ast::FactAnnotation>(),
            },
        ),
    )
}

impl Parser {
    fn peek_atom_relop(&mut self) -> (r: bool)
        requires
            old(self).wf(),
        ensures
            final(self).wf(),
            final(self)@ == old(self)@.ws(),
            r == relop(old(self)@),
            old(self)@.past(final(self)@),
    {
        self.skip_ws();
        self.sees("<<") || self.sees("⊏") || self.sees("(<)") || (self.sees("=") && !self.sees(
            "==",
        ) && !self.sees("=>")) || (self.sees("<") && !self.sees("<=") && !self.sees("<-"))
    }

    fn equality_atom(&self, lhs: Term, lhs_sort: bool, rhs: Term, rhs_sort: bool) -> (r: Result<
        Formula,
        ParseError,
    >)
        requires
            self.wf(),
        ensures
            (outcome(r), self@) == equality(
                self@,
                lhs.deep_view(),
                lhs_sort,
                rhs.deep_view(),
                rhs_sort,
            ),
    {
        proof {
            reveal(equality);
        }
        if is_node_var(&lhs) {
            let a = match to_node_operand(lhs, lhs_sort) {
                Some(a) => a,
                None => {
                    return Err(self.err("expected node variable before `=`"));
                },
            };
            return match to_node_operand(rhs, rhs_sort) {
                Some(b) => Ok(Formula::Atom(Atom::Eq(a, b))),
                None => Err(self.err("expected node variable after `=`")),
            };
        }
        if is_node_var(&rhs) {
            return Err(self.err("expected message term after `=`"));
        }
        Ok(Formula::Atom(Atom::Eq(lhs, rhs)))
    }

    fn less_atom(&self, lhs: Term, lhs_sort: bool, rhs: Term, rhs_sort: bool) -> (r: Result<
        Formula,
        ParseError,
    >)
        requires
            self.wf(),
        ensures
            (outcome(r), self@) == earlier(
                self@,
                lhs.deep_view(),
                lhs_sort,
                rhs.deep_view(),
                rhs_sort,
            ),
    {
        proof {
            reveal(earlier);
        }
        let a = match to_node_operand(lhs, lhs_sort) {
            Some(a) => a,
            None => {
                return Err(self.err("expected node variable before `<`"));
            },
        };
        match to_node_operand(rhs, rhs_sort) {
            Some(b) => Ok(Formula::Atom(Atom::Less(a, b))),
            None => Err(self.err("expected node variable after `<`")),
        }
    }

    #[verifier::spinoff_prover]
    fn formula_atom_tail_error(&mut self, after: Pos) -> (r: Result<Formula, ParseError>)
        requires
            old(self).wf(),
            position_of(old(self)@.src, after),
            old(self)@.at <= after.at,
        ensures
            final(self).wf(),
            (outcome(r), final(self)@) == no_atom(old(self)@, after.at as int),
            old(self)@.fwd(final(self)@),
    {
        proof {
            reveal(no_atom);
        }
        self.skip_ws();
        if self.peek() == Some('#') {
            self.bump();
        }
        let pre = self.save();
        match self.identifier() {
            Some(id) => {
                let n: usize = chars_of(&id).len();
                let end = self.ident_end_from(pre, n);
                self.try_dot_index();
                let spent = self.h.dot_index;
                self.skip_ws();
                let off = self.offset();
                let mut v = one_item(Message::SysUnExpect(self.unexpected_token()));
                if end == off {
                    put(&mut v, Message::Expect("letter or digit".to_string()));
                }
                if !spent {
                    put(&mut v, Message::Expect("\".\"".to_string()));
                }
                put(&mut v, Message::Expect("\"=\"".to_string()));
                assert(v.deep_view() =~= seq![MessageM::SysUnExpect(self@.token())] + (if end
                    == off {
                    seq![MessageM::Expect("letter or digit"@)]
                } else {
                    Seq::empty()
                }) + (if spent {
                    Seq::empty()
                } else {
                    seq![MessageM::Expect("\".\""@)]
                }) + seq![MessageM::Expect("\"=\""@)]);
                Err(self.error_here(v))
            },
            None => {
                self.restore(after);
                let mut v = labels1("subterm predicate");
                if self.sig.enable_mset {
                    put(&mut v, "multiset comparisson".to_string());
                }
                put(&mut v, "term equality".to_string());
                assert(self.sig.enable_mset ==> v.deep_view() =~= seq![
                    "subterm predicate"@,
                    "multiset comparisson"@,
                    "term equality"@,
                ]);
                assert(!self.sig.enable_mset ==> v.deep_view() =~= seq![
                    "subterm predicate"@,
                    "term equality"@,
                ]);
                Err(self.err_expect(v))
            },
        }
    }

    #[verifier::spinoff_prover]
    fn relation_atom(&mut self) -> (r: Result<Formula, ParseError>)
        requires
            old(self).wf(),
        ensures
            final(self).wf(),
            (outcome(r), final(self)@) == relation(old(self)@),
            old(self)@.fwd(final(self)@),
    {
        proof {
            reveal(relation);
        }
        let start = self.save();
        let lhs = self.term()?;
        let lhs_sort = self.h.sort_suffix;
        if self.try_punct("=") {
            let rhs = self.term()?;
            let rhs_sort = self.h.sort_suffix;
            return self.equality_atom(lhs, lhs_sort, rhs, rhs_sort);
        }
        if self.try_either("<<", "⊏") {
            let rhs = self.term()?;
            return Ok(Formula::Atom(Atom::Subterm(lhs, rhs)));
        }
        if self.try_punct("(<)") {
            if !self.sig.enable_mset {
                return Err(
                    self.err("Need builtins: multiset to use multiset comparison operator."),
                );
            }
            let rhs = self.term()?;
            return Ok(smaller_atom(lhs, rhs));
        }
        if self.try_punct("<") {
            let rhs = self.term()?;
            let rhs_sort = self.h.sort_suffix;
            return self.less_atom(lhs, lhs_sort, rhs, rhs_sort);
        }
        let after = self.save();
        self.restore(start);
        match self.fact() {
            Ok(f) => Ok(Formula::Atom(Atom::Pred(f))),
            Err(_) => {
                self.restore(start);
                self.formula_atom_tail_error(after)
            },
        }
    }

    #[verifier::spinoff_prover]
    fn last_formula(&mut self) -> (r: Result<Formula, ParseError>)
        requires
            old(self).wf(),
        ensures
            final(self).wf(),
            (outcome(r), final(self)@) == last_atom(old(self)@),
            old(self)@.fwd(final(self)@),
    {
        proof {
            reveal(last_atom);
        }
        self.require_punct("(")?;
        let t = self.term()?;
        self.require_punct(")")?;
        Ok(Formula::Atom(Atom::Last(to_node(t))))
    }

    #[verifier::spinoff_prover]
    fn atomic_formula(&mut self) -> (r: Result<Formula, ParseError>)
        requires
            old(self).wf(),
        ensures
            final(self).wf(),
            (outcome(r), final(self)@) == atom_formula(old(self)@),
            old(self)@.fwd(final(self)@),
    {
        proof {
            reveal(atom_formula);
        }
        if self.try_kw("last") {
            return self.last_formula();
        }
        let start = self.save();
        match self.fact() {
            Ok(f) => {
                if self.try_punct("@") {
                    let t = self.term()?;
                    return Ok(Formula::Atom(Atom::Action(f, to_node(t))));
                }
                if !self.peek_atom_relop() {
                    return Ok(Formula::Atom(Atom::Pred(f)));
                }
            },
            Err(_) => {},
        }
        self.restore(start);
        self.relation_atom()
    }

    /// The variables that a quantifier binds, and the dot.
    #[verifier::spinoff_prover]
    pub fn quantifier_binders(&mut self) -> (r: Result<Vec<VarSpec>, ParseError>)
        requires
            old(self).wf(),
        ensures
            final(self).wf(),
            (outcome(r), final(self)@) == bound_vars(old(self)@),
            old(self)@.fwd(final(self)@),
    {
        proof {
            reveal(bound_vars);
        }
        let mut vs = no_items::<VarSpec>();
        loop
            invariant
                self.wf(),
                old(self)@.fwd(self@),
                binders(self@, vs.deep_view()) == bound_vars(old(self)@),
            decreases self@.rem(),
        {
            self.skip_ws();
            if self.peek() == Some('.') {
                self.require_punct(".")?;
                return Ok(vs);
            }
            let v = self.var_spec()?;
            put(&mut vs, v);
        }
    }

    #[verifier::spinoff_prover]
    fn iff(&mut self) -> (r: Result<Formula, ParseError>)
        requires
            old(self).wf(),
        ensures
            final(self).wf(),
            (outcome(r), final(self)@) == iff(old(self)@),
            old(self)@.fwd(final(self)@),
        decreases old(self)@.rem(), 10int,
    {
        let a = self.implies()?;
        if self.try_either("<=>", "⇔") {
            let b = self.implies()?;
            Ok(Formula::Iff(Box::new(a), Box::new(b)))
        } else {
            Ok(a)
        }
    }

    #[verifier::spinoff_prover]
    fn implies(&mut self) -> (r: Result<Formula, ParseError>)
        requires
            old(self).wf(),
        ensures
            final(self).wf(),
            (outcome(r), final(self)@) == implies(old(self)@),
            old(self)@.fwd(final(self)@),
        decreases old(self)@.rem(), 9int,
    {
        let a = self.disjuncts()?;
        if self.try_either("==>", "⇒") {
            let b = self.implies()?;
            Ok(Formula::Implies(Box::new(a), Box::new(b)))
        } else {
            Ok(a)
        }
    }

    #[verifier::spinoff_prover]
    fn disjuncts(&mut self) -> (r: Result<Formula, ParseError>)
        requires
            old(self).wf(),
        ensures
            final(self).wf(),
            (outcome(r), final(self)@) == disjuncts(old(self)@),
            old(self)@.fwd(final(self)@),
        decreases old(self)@.rem(), 8int,
    {
        let mut a = self.conjuncts()?;
        loop
            invariant
                self.wf(),
                old(self)@.fwd(self@),
                more_disjuncts(self@, a.deep_view()) == disjuncts(old(self)@),
            decreases self@.rem(),
        {
            if !self.try_either("|", "∨") {
                return Ok(a);
            }
            let b = self.conjuncts()?;
            a = Formula::Or(Box::new(a), Box::new(b));
        }
    }

    #[verifier::spinoff_prover]
    fn conjuncts(&mut self) -> (r: Result<Formula, ParseError>)
        requires
            old(self).wf(),
        ensures
            final(self).wf(),
            (outcome(r), final(self)@) == conjuncts(old(self)@),
            old(self)@.fwd(final(self)@),
        decreases old(self)@.rem(), 7int,
    {
        let mut a = self.negation()?;
        loop
            invariant
                self.wf(),
                old(self)@.fwd(self@),
                more_conjuncts(self@, a.deep_view()) == conjuncts(old(self)@),
            decreases self@.rem(),
        {
            if !self.try_either("&", "∧") {
                return Ok(a);
            }
            let b = self.negation()?;
            a = Formula::And(Box::new(a), Box::new(b));
        }
    }

    #[verifier::spinoff_prover]
    fn negation(&mut self) -> (r: Result<Formula, ParseError>)
        requires
            old(self).wf(),
        ensures
            final(self).wf(),
            (outcome(r), final(self)@) == negation(old(self)@),
            old(self)@.fwd(final(self)@),
        decreases old(self)@.rem(), 6int,
    {
        if self.try_word_or("not", "¬") {
            let a = self.fatom()?;
            Ok(Formula::Not(Box::new(a)))
        } else {
            self.fatom()
        }
    }

    #[verifier::spinoff_prover]
    fn fatom(&mut self) -> (r: Result<Formula, ParseError>)
        requires
            old(self).wf(),
        ensures
            final(self).wf(),
            (outcome(r), final(self)@) == fatom(old(self)@),
            old(self)@.fwd(final(self)@),
        decreases old(self)@.rem(), 5int,
    {
        self.skip_ws();
        if self.try_word_or("F", "⊥") {
            return Ok(Formula::False);
        }
        if self.try_word_or("T", "⊤") {
            return Ok(Formula::True);
        }
        if self.try_word_or("All", "∀") {
            return self.quantified_formula(true);
        }
        if self.try_word_or("Ex", "∃") {
            return self.quantified_formula(false);
        }
        if self.peek() == Some('(') {
            return self.grouped_formula();
        }
        self.atomic_formula()
    }

    #[verifier::spinoff_prover]
    fn grouped_formula(&mut self) -> (r: Result<Formula, ParseError>)
        requires
            old(self).wf(),
            old(self)@.peek() is Some,
        ensures
            final(self).wf(),
            (outcome(r), final(self)@) == grouped(old(self)@),
            old(self)@.fwd(final(self)@),
        decreases old(self)@.rem(), 4int,
    {
        let start = self.save();
        self.bump();
        self.skip_ws();
        match self.iff() {
            Ok(f) => {
                if self.try_punct(")") {
                    return Ok(f);
                }
            },
            Err(_) => {},
        }
        self.restore(start);
        self.atomic_formula()
    }

    #[verifier::spinoff_prover]
    fn quantified_formula(&mut self, all: bool) -> (r: Result<Formula, ParseError>)
        requires
            old(self).wf(),
        ensures
            final(self).wf(),
            (outcome(r), final(self)@) == quantified(old(self)@, all),
            old(self)@.fwd(final(self)@),
        decreases old(self)@.rem(), 11int,
    {
        let vs = self.quantifier_binders()?;
        let f = self.iff()?;
        Ok(bind(all, vs, f))
    }

    /// A formula.
    pub fn formula(&mut self) -> (r: Result<Formula, ParseError>)
        requires
            old(self).wf(),
        ensures
            final(self).wf(),
            (outcome(r), final(self)@) == formula(old(self)@),
            old(self)@.fwd(final(self)@),
    {
        proof {
            reveal(formula);
        }
        self.iff()
    }

    /// The error where the quote behind a formula is missing.
    pub fn formula_close_error(&mut self) -> (e: ParseError)
        requires
            old(self).wf(),
        ensures
            final(self).wf(),
            (Err::<(), ErrorM>(e.deep_view()), final(self)@) == fail_formula_end::<()>(old(self)@),
            old(self)@.past(final(self)@),
    {
        proof {
            reveal(fail_formula_end);
        }
        self.skip_ws();
        let off = self.offset();
        let mut v = no_items::<String>();
        let hangs = match self.h.annot {
            Some(o) => o == off,
            None => false,
        };
        if hangs {
            put(&mut v, "\"[\"".to_string());
        }
        put(&mut v, "\"&\"".to_string());
        put(&mut v, "\"∧\"".to_string());
        put(&mut v, "\"|\"".to_string());
        put(&mut v, "\"∨\"".to_string());
        put(&mut v, "\"==>\"".to_string());
        put(&mut v, "\"⇒\"".to_string());
        put(&mut v, "\"<=>\"".to_string());
        put(&mut v, "\"⇔\"".to_string());
        put(&mut v, "\"\"\"".to_string());
        assert(v.deep_view() =~= (if hangs {
            seq!["\"[\""@]
        } else {
            Seq::empty()
        }) + seq![
            "\"&\""@,
            "\"∧\""@,
            "\"|\""@,
            "\"∨\""@,
            "\"==>\""@,
            "\"⇒\""@,
            "\"<=>\""@,
            "\"⇔\""@,
            "\"\"\""@,
        ]);
        self.err_labels(v)
    }
}

} // verus!
