//! Facts.

use crate::ast::{Fact, FactAnnotation, FactM, Term, TermM};
use crate::basics::word_offset;
use crate::error::{outcome, Message, MessageM, ParseError};
use crate::model::{no_items, one_item, put};
use crate::state::{group_steps, step, Hangs, Parser, Step, PS};
use crate::terms::term_args;
use crate::text::{ascii_upper, chars_of, decimal, is_upper, same, to_decimal, to_upper, upper_text};
use vstd::prelude::*;

verus! {

broadcast use {group_steps, crate::tokens::group_lexer, crate::ast::group_models};

/// What the name of a fact stands for, without regard to case: the name it is
/// written with, whether it is persistent, and whether annotations are kept.
#[verifier::opaque]
pub open spec fn special_fact(name: Seq<char>) -> Option<(Seq<char>, bool, bool)> {
    let u = upper_text(name);
    if u == "OUT"@ {
        Some(("Out"@, false, false))
    } else if u == "IN"@ {
        Some(("In"@, false, true))
    } else if u == "KU"@ {
        Some(("KU"@, true, false))
    } else if u == "KD"@ {
        Some(("KD"@, true, false))
    } else if u == "DED"@ {
        Some(("Ded"@, false, false))
    } else if u == "FR"@ {
        Some(("Fr"@, false, false))
    } else {
        None
    }
}

pub open spec fn single_term_message(name: Seq<char>, n: int) -> Seq<char> {
    "fact '"@ + name + "' used with arity "@ + decimal(n as nat) + " instead of arity one"@
}

/// The fact that was read up to `s`. A special fact has one argument, and its
/// name says whether it is persistent.
#[verifier::opaque]
pub open spec fn fact_of(
    s: PS,
    persistent: bool,
    name: Seq<char>,
    args: Seq<TermM>,
    annotations: Seq<FactAnnotation>,
) -> Step<FactM> {
    match special_fact(name) {
        Some((n, p, keep)) => if upper_text(name) == "FR"@ && persistent {
            (Err(s.err("fresh facts cannot be persistent"@)), s)
        } else if args.len() != 1 {
            (Err(s.err(single_term_message(name, args.len() as int))), s)
        } else {
            (
                Ok(
                    FactM {
                        persistent: p,
                        name: n,
                        args,
                        annotations: if keep {
                            annotations
                        } else {
                            Seq::empty()
                        },
                    },
                ),
                s,
            )
        },
        None => (Ok(FactM { persistent, name, args, annotations }), s),
    }
}

/// An annotation, if one comes next.
pub open spec fn annotation(s: PS) -> (Option<FactAnnotation>, PS) {
    let (a, s1) = s.punct("++"@);
    let (b, s2) = s1.punct("+"@);
    let (c, s3) = s2.punct("-"@);
    let (d, s4) = s3.kw("no_precomp"@);
    if a {
        (Some(FactAnnotation::SolveFirst), s1)
    } else if b {
        (Some(FactAnnotation::SolveFirst), s2)
    } else if c {
        (Some(FactAnnotation::SolveLast), s3)
    } else if d {
        (Some(FactAnnotation::NoSources), s4)
    } else {
        (None, s4)
    }
}

/// The annotations behind `acc`, and the closing bracket.
pub open spec fn more_annotations(s: PS, acc: Seq<FactAnnotation>) -> Step<Seq<FactAnnotation>>
    decreases s.rem(),
{
    match annotation(s) {
        (Some(a), s1) => {
            let (more, s2) = s1.punct(","@);
            if more {
                more_annotations(s2, acc.push(a))
            } else {
                annotations_end(s2, acc.push(a))
            }
        },
        (None, s1) => annotations_end(s1, acc),
    }
}

pub open spec fn annotations_end(s: PS, all: Seq<FactAnnotation>) -> Step<Seq<FactAnnotation>> {
    match s.need("]"@) {
        (Ok(_), s1) => (Ok(all), s1),
        (Err(e), s1) => (Err(e), s1),
    }
}

/// The annotations of a fact, and a note where it has none.
#[verifier::opaque]
pub open spec fn fact_annotations(s: PS) -> Step<Seq<FactAnnotation>> {
    let w = s.ws();
    let n = PS {
        h: Hangs {
            annot: if w.at_punct("["@) {
                None
            } else {
                Some(w.offset())
            },
            ..w.h
        },
        ..w
    };
    let (open, s1) = n.punct("["@);
    if open {
        let (close, s2) = s1.punct("]"@);
        if close {
            (Ok(Seq::empty()), s2)
        } else {
            more_annotations(s2, Seq::empty())
        }
    } else {
        (Ok(Seq::empty()), s1)
    }
}

/// The error for the name of a fact that was read from `from` up to `s`.
#[verifier::opaque]
pub open spec fn fact_name_error(s: PS, from: int, name: Seq<char>) -> Step<FactM> {
    let w = s.ws();
    let m = MessageM::Message("facts must start with upper-case letters"@);
    (
        Err(
            w.error(
                if word_offset(s.src, from, name.len() as int) == s.offset() {
                    seq![
                        MessageM::SysUnExpect(w.token()),
                        MessageM::Expect("letter or digit"@),
                        m,
                    ]
                } else {
                    seq![MessageM::SysUnExpect(w.token()), m]
                },
            ),
        ),
        w,
    )
}

/// A fact.
#[verifier::opaque]
pub open spec fn fact(s: PS) -> Step<FactM> {
    let (persistent, s1) = s.punct("!"@);
    match s1.ident() {
        (Err(e), s2) => (Err(e), s2),
        (Ok(name), s2) => if !(name.len() > 0 && ascii_upper(name[0])) {
            fact_name_error(s2, s1.at, name)
        } else {
            match s2.need("("@) {
                (Err(e), s3) => (Err(e), s3),
                (Ok(_), s3) => match term_args(s3) {
                    (Err(e), s4) => (Err(e), s4),
                    (Ok(args), s4) => match fact_annotations(s4) {
                        (Err(e), s5) => (Err(e), s5),
                        (Ok(anns), s5) => fact_of(s5, persistent, name, args, anns),
                    },
                },
            }
        },
    }
}

/// The facts of a list that ends with a bracket, behind `acc`.
pub open spec fn more_facts(s: PS, acc: Seq<FactM>, close: Seq<char>) -> Step<Seq<FactM>>
    decreases s.rem(),
{
    match step(s, fact(s)) {
        (Err(e), s1) => (Err(e), s1),
        (Ok(f), s1) => {
            let (more, s2) = s1.punct(","@);
            if more && !s2.at_punct(close) {
                more_facts(s2, acc.push(f), close)
            } else {
                crate::terms::list_end(s2, acc.push(f), close)
            }
        },
    }
}

/// A list of facts that ends with `close`, behind the opening token.
#[verifier::opaque]
pub open spec fn fact_list(s: PS, close: Seq<char>) -> Step<Seq<FactM>> {
    let (empty, s1) = s.punct(close);
    if empty {
        (Ok(Seq::empty()), s1)
    } else {
        more_facts(s1, Seq::empty(), close)
    }
}

fn special_fact_of(name: &str) -> (r: Option<(&'static str, bool, bool)>)
    ensures
        match r {
            Some(t) => special_fact(name@) == Some((t.0@, t.1, t.2)),
            None => special_fact(name@) is None,
        },
{
    proof {
        reveal(special_fact);
    }
    let u = to_upper(name);
    if same(&u, "OUT") {
        Some(("Out", false, false))
    } else if same(&u, "IN") {
        Some(("In", false, true))
    } else if same(&u, "KU") {
        Some(("KU", true, false))
    } else if same(&u, "KD") {
        Some(("KD", true, false))
    } else if same(&u, "DED") {
        Some(("Ded", false, false))
    } else if same(&u, "FR") {
        Some(("Fr", false, false))
    } else {
        None
    }
}

fn single_term_text(name: &str, n: usize) -> (r: String)
    ensures
        r@ == single_term_message(name@, n as int),
{
    let mut r = "fact '".to_string();
    r.push_str(name);
    r.push_str("' used with arity ");
    r.push_str(&to_decimal(n as u64));
    r.push_str(" instead of arity one");
    r
}

/// Whether the name starts with a capital letter.
pub fn starts_upper(name: &str) -> (r: bool)
    ensures
        r == (name@.len() > 0 && ascii_upper(name@[0])),
{
    let v = chars_of(name);
    v.len() > 0 && is_upper(v[0])
}

impl Parser {
    fn finish_fact(
        &mut self,
        persistent: bool,
        name: String,
        args: Vec<Term>,
        annotations: Vec<FactAnnotation>,
    ) -> (r: Result<Fact, ParseError>)
        requires
            old(self).wf(),
        ensures
            final(self).wf(),
            final(self)@ == old(self)@,
            (outcome(r), final(self)@) == fact_of(
                old(self)@,
                persistent,
                name@,
                args.deep_view(),
                annotations.deep_view(),
            ),
    {
        proof {
            reveal(fact_of);
        }
        match special_fact_of(&name) {
            Some((n, p, keep)) => {
                if persistent && same(&to_upper(&name), "FR") {
                    return Err(self.err("fresh facts cannot be persistent"));
                }
                if args.len() != 1 {
                    let m = single_term_text(&name, args.len());
                    return Err(self.err(&m));
                }
                let annotations = if keep {
                    annotations
                } else {
                    no_items::<FactAnnotation>()
                };
                Ok(Fact { persistent: p, name: n.to_string(), args, annotations })
            },
            None => Ok(Fact { persistent, name, args, annotations }),
        }
    }

    fn fact_annotation(&mut self) -> (r: Option<FactAnnotation>)
        requires
            old(self).wf(),
        ensures
            final(self).wf(),
            (r, final(self)@) == annotation(old(self)@),
            old(self)@.past(final(self)@),
            r is Some ==> old(self)@.at < final(self)@.at,
    {
        if self.try_punct("++") || self.try_punct("+") {
            Some(FactAnnotation::SolveFirst)
        } else if self.try_punct("-") {
            Some(FactAnnotation::SolveLast)
        } else if self.try_kw("no_precomp") {
            Some(FactAnnotation::NoSources)
        } else {
            None
        }
    }

    fn annotation_list(&mut self) -> (r: Result<Vec<FactAnnotation>, ParseError>)
        requires
            old(self).wf(),
        ensures
            final(self).wf(),
            (outcome(r), final(self)@) == fact_annotations(old(self)@),
            old(self)@.fwd(final(self)@),
    {
        proof {
            reveal(fact_annotations);
        }
        self.skip_ws();
        let off = self.offset();
        self.h.annot = if self.peek_punct("[") {
            None
        } else {
            Some(off)
        };
        let mut v = no_items::<FactAnnotation>();
        if !self.try_punct("[") || self.try_punct("]") {
            return Ok(v);
        }
        let ghost start = self@;
        loop
            invariant
                self.wf(),
                start.past(self@),
                old(self)@.fwd(start),
                more_annotations(self@, v.deep_view()) == more_annotations(start, Seq::empty()),
                more_annotations(start, Seq::empty()) == fact_annotations(old(self)@),
            decreases self@.rem(),
        {
            match self.fact_annotation() {
                Some(a) => {
                    put(&mut v, a);
                    if !self.try_punct(",") {
                        self.require_punct("]")?;
                        return Ok(v);
                    }
                },
                None => {
                    self.require_punct("]")?;
                    return Ok(v);
                },
            }
        }
    }

    fn fact_name_failure(&mut self, from: crate::lexer::Pos, name: &str) -> (r: Result<
        Fact,
        ParseError,
    >)
        requires
            old(self).wf(),
            crate::lexer::position_of(old(self)@.src, from),
        ensures
            final(self).wf(),
            (outcome(r), final(self)@) == fact_name_error(old(self)@, from.at as int, name@),
            old(self)@.past(final(self)@),
    {
        proof {
            reveal(fact_name_error);
        }
        let n: usize = chars_of(name).len();
        let end = self.ident_end_from(from, n);
        let after = self.offset();
        self.skip_ws();
        let mut v = one_item(Message::SysUnExpect(self.unexpected_token()));
        if end == after {
            put(&mut v, Message::Expect("letter or digit".to_string()));
        }
        put(
            &mut v,
            Message::Message("facts must start with upper-case letters".to_string()),
        );
        assert(end == after ==> v.deep_view() =~= seq![
            MessageM::SysUnExpect(self@.token()),
            MessageM::Expect("letter or digit"@),
            MessageM::Message("facts must start with upper-case letters"@),
        ]);
        assert(end != after ==> v.deep_view() =~= seq![
            MessageM::SysUnExpect(self@.token()),
            MessageM::Message("facts must start with upper-case letters"@),
        ]);
        Err(self.error_here(v))
    }

    /// A fact.
    pub fn fact(&mut self) -> (r: Result<Fact, ParseError>)
        requires
            old(self).wf(),
        ensures
            final(self).wf(),
            (outcome(r), final(self)@) == fact(old(self)@),
            old(self)@.fwd(final(self)@),
            r is Ok ==> old(self)@.at < final(self)@.at,
    {
        proof {
            reveal(fact);
        }
        let persistent = self.try_punct("!");
        let from = self.save();
        let name = self.ident()?;
        if !starts_upper(&name) {
            return self.fact_name_failure(from, &name);
        }
        self.require_punct("(")?;
        let args = self.term_arguments()?;
        let annotations = self.annotation_list()?;
        self.finish_fact(persistent, name, args, annotations)
    }

    /// A list of facts that ends with `close`.
    pub fn sep_end_facts(&mut self, close: &str) -> (r: Result<Vec<Fact>, ParseError>)
        requires
            old(self).wf(),
        ensures
            final(self).wf(),
            (outcome(r), final(self)@) == fact_list(old(self)@, close@),
            old(self)@.fwd(final(self)@),
    {
        proof {
            reveal(fact_list);
        }
        let mut v = no_items::<Fact>();
        if self.try_punct(close) {
            return Ok(v);
        }
        let ghost start = self@;
        loop
            invariant
                self.wf(),
                start.fwd(self@),
                old(self)@.fwd(start),
                more_facts(self@, v.deep_view(), close@) == more_facts(start, Seq::empty(), close@),
                more_facts(start, Seq::empty(), close@) == fact_list(old(self)@, close@),
            decreases self@.rem(),
        {
            let f = self.fact()?;
            put(&mut v, f);
            let more = self.try_punct(",");
            if !more || self.peek_punct(close) {
                if self.try_punct(close) {
                    return Ok(v);
                }
                return Err(
                    self.err_expect_after_term(
                        crate::basics::labels2("\",\"", &crate::text::quote(close)),
                    ),
                );
            }
        }
    }
}

} // verus!
