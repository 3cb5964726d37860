//! Lemmas, restrictions and case tests.

use crate::ast::{
    AccLemma, AccLemmaM, CaseTest, CaseTestM, DiffLemma, DiffLemmaM, Formula, FormulaM, ItemM,
    Lemma, LemmaAttr, LemmaAttrM, LemmaM, Restriction, RestrictionAttr, RestrictionM, TheoryItem,
    TraceQuantifier,
};
use crate::basics::{fail_behind_item, item_ended};
use crate::comments::{uncomment, uncommented};
use crate::error::{outcome, ParseError};
use crate::formulas::{fail_formula_end, formula};
use crate::lists::name_list;
use crate::model::{no_items, put};
use crate::names::{fits, follows, noted};
use crate::proofs::{diff_skeleton, skeleton};
use crate::rules::modulo;
use crate::state::{group_steps, step, ItemTail, Parser, SeenM, StateM, Step, PS};
use crate::text::{chars_of, has_text, same, trim_chars, trimmed};
use crate::values::{copy_lemma_attrs, copy_text_opt};
use vstd::prelude::*;

verus! {

broadcast use {group_steps, crate::tokens::group_lexer, crate::ast::group_models};

/// A formula between double quotes.
#[verifier::opaque]
pub open spec fn quoted_formula(s: PS) -> Step<FormulaM> {
    match s.need("\""@) {
        (Err(e), s1) => (Err(e), s1),
        (Ok(_), s1) => match formula(s1) {
            (Err(e), s2) => (Err(e), s2),
            (Ok(f), s2) => {
                let (close, s3) = s2.punct("\""@);
                if close {
                    (Ok(f), s3)
                } else {
                    fail_formula_end(s3)
                }
            },
        },
    }
}

/// Where the value of an attribute ends that goes on at `i` with `depth` open
/// brackets.
pub open spec fn value_end(src: Seq<char>, i: int, depth: int) -> int
    decreases src.len() - i,
{
    if i < 0 || i >= src.len() {
        i
    } else {
        let c = src[i];
        if depth == 0 && (c == ']' || c == ',') {
            i
        } else if c == '[' || c == '(' || c == '{' {
            value_end(src, i + 1, depth + 1)
        } else if c == ']' || c == ')' || c == '}' {
            value_end(src, i + 1, depth - 1)
        } else {
            value_end(src, i + 1, depth)
        }
    }
}

/// The value of an attribute.
#[verifier::opaque]
pub open spec fn attr_value(s: PS) -> (Seq<char>, PS) {
    let e = value_end(s.src, s.at, 0);
    (trimmed(s.src.subrange(s.at, e)), s.to(e))
}

/// The attributes of a lemma that name a value.
#[verifier::opaque]
pub open spec fn valued_attr(s: PS) -> Step<Option<LemmaAttrM>> {
    let (hide, s1) = s.kw("hide_lemma"@);
    let (heuristic, s2) = s.kw("heuristic"@);
    let (output, s3) = s.kw("output"@);
    if hide {
        match s1.need("="@) {
            (Err(e), t) => (Err(e), t),
            (Ok(_), t) => match t.ident() {
                (Err(e), u) => (Err(e), u),
                (Ok(id), u) => (Ok(Some(LemmaAttrM::HideLemma(id))), u),
            },
        }
    } else if heuristic {
        match s2.need("="@) {
            (Err(e), t) => (Err(e), t),
            (Ok(_), t) => {
                let (v, u) = attr_value(t);
                (Ok(Some(LemmaAttrM::Heuristic(v))), u)
            },
        }
    } else if output {
        match s3.need("="@) {
            (Err(e), t) => (Err(e), t),
            (Ok(_), t) => match t.need("["@) {
                (Err(e), u) => (Err(e), u),
                (Ok(_), u) => match name_list(u, "]"@) {
                    (Err(e), v) => (Err(e), v),
                    (Ok(ns), v) => (Ok(Some(LemmaAttrM::Output(ns))), v),
                },
            },
        }
    } else {
        let (raw, t) = attr_value(s);
        if raw.len() == 0 {
            (Ok(None), t)
        } else {
            (Err(t.err("unknown lemma attribute: "@ + raw)), t)
        }
    }
}

/// An attribute of a lemma, if one comes next.
#[verifier::opaque]
pub open spec fn lemma_attr(s: PS) -> Step<Option<LemmaAttrM>> {
    let w = s.ws();
    let (typing, a1) = w.kw("typing"@);
    let (sources, a2) = w.kw("sources"@);
    let (reuse, s2) = w.kw("reuse"@);
    let (diff_reuse, s3) = w.kw("diff_reuse"@);
    let (induction, s4) = w.kw("use_induction"@);
    let (left, s5) = w.kw("left"@);
    let (right, s6) = w.kw("right"@);
    if typing {
        (Ok(Some(LemmaAttrM::Sources)), a1)
    } else if sources {
        (Ok(Some(LemmaAttrM::Sources)), a2)
    } else if reuse {
        (Ok(Some(LemmaAttrM::Reuse)), s2)
    } else if diff_reuse {
        (Ok(Some(LemmaAttrM::DiffReuse)), s3)
    } else if induction {
        (Ok(Some(LemmaAttrM::UseInduction)), s4)
    } else if left {
        (Ok(Some(LemmaAttrM::Left)), s5)
    } else if right {
        (Ok(Some(LemmaAttrM::Right)), s6)
    } else {
        valued_attr(w)
    }
}

/// The attributes behind `acc`, and the closing bracket.
pub open spec fn more_lemma_attrs(s: PS, acc: Seq<LemmaAttrM>) -> Step<Seq<LemmaAttrM>>
    decreases s.rem(),
{
    match step(s, lemma_attr(s)) {
        (Err(e), s1) => (Err(e), s1),
        (Ok(None), s1) => lemma_attrs_end(s1, acc),
        (Ok(Some(a)), s1) => {
            let (more, s2) = s1.punct(","@);
            if more {
                more_lemma_attrs(s2, acc.push(a))
            } else {
                lemma_attrs_end(s2, acc.push(a))
            }
        },
    }
}

pub open spec fn lemma_attrs_end(s: PS, all: Seq<LemmaAttrM>) -> Step<Seq<LemmaAttrM>> {
    match s.need("]"@) {
        (Ok(_), s1) => (Ok(all), s1),
        (Err(e), s1) => (Err(e), s1),
    }
}

/// The attributes of a lemma.
#[verifier::opaque]
pub open spec fn lemma_attrs(s: PS) -> Step<Seq<LemmaAttrM>> {
    let (open, s1) = s.punct("["@);
    if open {
        more_lemma_attrs(s1, Seq::empty())
    } else {
        (Ok(Seq::empty()), s1)
    }
}

/// The names of case tests behind `acc`.
pub open spec fn case_tests(s: PS, acc: Seq<Seq<char>>) -> (Seq<Seq<char>>, PS)
    decreases s.rem(),
{
    let w = s.ws();
    match w.name() {
        (Some(id), s1) => if id == "accounts"@ || id == "account"@ {
            (acc, w)
        } else {
            let (more, s2) = s1.punct(","@);
            if more {
                case_tests(s2, acc.push(id))
            } else {
                (acc.push(id), s2)
            }
        },
        (None, s1) => (acc, s1),
    }
}

/// The case tests and the formula of an accountability lemma, if it is one.
#[verifier::opaque]
pub open spec fn acc_body(s: PS) -> Step<Option<(Seq<Seq<char>>, FormulaM)>> {
    let (idents, s1) = case_tests(s, Seq::empty());
    let (accounts, a1) = s1.kw("accounts"@);
    let (account, a2) = s1.kw("account"@);
    if idents.len() == 0 || !(accounts || account) {
        (Ok(None), s)
    } else {
        match (if accounts { a1 } else { a2 }).need_kw("for"@) {
            (Err(e), s2) => (Err(e), s2),
            (Ok(_), s2) => match quoted_formula(s2) {
                (Err(e), s3) => (Err(e), s3),
                (Ok(f), s3) => (Ok(Some((idents, f))), s3),
            },
        }
    }
}

/// Whether a lemma speaks of all traces; it does where it does not say.
#[verifier::opaque]
pub open spec fn quantifier(s: PS) -> (TraceQuantifier, PS) {
    let (all, s1) = s.kw("all-traces"@);
    let (some, s2) = s.kw("exists-trace"@);
    if all {
        (TraceQuantifier::AllTraces, s1)
    } else if some {
        (TraceQuantifier::ExistsTrace, s2)
    } else {
        (TraceQuantifier::AllTraces, s)
    }
}

/// The name and the attributes of a lemma.
#[verifier::opaque]
pub open spec fn lemma_head(s: PS) -> Step<(Seq<char>, Seq<LemmaAttrM>)> {
    match s.need_kw("lemma"@) {
        (Err(e), s1) => (Err(e), s1),
        (Ok(_), s1) => match modulo(s1).1.ident() {
            (Err(e), s2) => (Err(e), s2),
            (Ok(name), s2) => match lemma_attrs(s2) {
                (Err(e), s3) => (Err(e), s3),
                (Ok(attrs), s3) => match s3.need(":"@) {
                    (Err(e), s4) => (Err(e), s4),
                    (Ok(_), s4) => (Ok((name, attrs)), s4),
                },
            },
        },
    }
}

/// The lemma of that name and those attributes that goes on at `s` and started
/// at `start`.
#[verifier::opaque]
pub open spec fn lemma_body(s: PS, start: int, name: Seq<char>, attrs: Seq<LemmaAttrM>) -> Step<
    LemmaM,
> {
    let (q, s1) = quantifier(s);
    match quoted_formula(s1) {
        (Err(e), s2) => (Err(e), s2),
        (Ok(f), s2) => match skeleton(s2) {
            (Err(e), s3) => (Err(e), s3),
            (Ok(p), s3) => (
                Ok(
                    LemmaM {
                        name,
                        source_file: s.place.source_file,
                        attributes: attrs,
                        trace_quantifier: q,
                        formula: f,
                        proof: p,
                        plaintext: uncommented(s3.src.subrange(start, s3.at), 0),
                    },
                ),
                if p is None {
                    item_ended(s3, ItemTail::Proof)
                } else {
                    s3
                },
            ),
        },
    }
}

/// Whether the lemma is about the left side, and about the right side of a
/// diff theory: about both where it does not say.
pub open spec fn on_left(attrs: Seq<LemmaAttrM>) -> bool {
    attrs.contains(LemmaAttrM::Left) || !attrs.contains(LemmaAttrM::Right)
}

pub open spec fn on_right(attrs: Seq<LemmaAttrM>) -> bool {
    !attrs.contains(LemmaAttrM::Left)
}

/// Whether the name of a lemma is taken where the lemma belongs.
pub open spec fn lemma_taken(s: PS, name: Seq<char>, attrs: Seq<LemmaAttrM>) -> bool {
    if s.place.is_diff {
        (on_left(attrs) && s.st.seen.diff_left_lemma_names.contains(name)) || (on_right(attrs)
            && s.st.seen.diff_right_lemma_names.contains(name))
    } else {
        s.st.seen.lemma_names.contains(name)
    }
}

/// The names with `name` behind them, if it belongs to them.
pub open spec fn put_if(names: Seq<Seq<char>>, name: Seq<char>, yes: bool) -> Seq<Seq<char>> {
    if yes {
        names.push(name)
    } else {
        names
    }
}

/// The state in which the lemma is known.
pub open spec fn knowing_lemma(s: PS, name: Seq<char>, attrs: Seq<LemmaAttrM>) -> PS {
    PS {
        st: StateM {
            seen: SeenM {
                lemma_names: put_if(s.st.seen.lemma_names, name, !s.place.is_diff),
                diff_left_lemma_names: put_if(
                    s.st.seen.diff_left_lemma_names,
                    name,
                    s.place.is_diff && on_left(attrs),
                ),
                diff_right_lemma_names: put_if(
                    s.st.seen.diff_right_lemma_names,
                    name,
                    s.place.is_diff && on_right(attrs),
                ),
                ..s.st.seen
            },
            ..s.st
        },
        ..s
    }
}

/// A lemma whose name is free.
#[verifier::opaque]
pub open spec fn lemma_guard(s: PS, name: Seq<char>, attrs: Seq<LemmaAttrM>) -> Step<()> {
    if lemma_taken(s, name, attrs) {
        fail_behind_item(s, "duplicate lemma: "@ + name)
    } else {
        (Ok(()), knowing_lemma(s, name, attrs))
    }
}

/// A lemma, or an accountability lemma.
#[verifier::opaque]
pub open spec fn lemma_item(s: PS) -> Step<ItemM> {
    match lemma_head(s) {
        (Err(e), s1) => (Err(e), s1),
        (Ok((name, attrs)), s1) => match acc_body(s1) {
            (Err(e), s2) => (Err(e), s2),
            (Ok(Some((idents, f))), s2) => (
                Ok(
                    ItemM::AccLemma(
                        AccLemmaM {
                            name,
                            source_file: s.place.source_file,
                            attributes: attrs,
                            formula: f,
                            case_test_idents: idents,
                        },
                    ),
                ),
                s2,
            ),
            (Ok(None), s2) => match lemma_body(s2, s.at, name, attrs) {
                (Err(e), s3) => (Err(e), s3),
                (Ok(l), s3) => match lemma_guard(s3, name, attrs) {
                    (Err(e), s4) => (Err(e), s4),
                    (Ok(_), s4) => (Ok(ItemM::Lemma(l)), s4),
                },
            },
        },
    }
}

/// A diff lemma.
#[verifier::opaque]
pub open spec fn diff_lemma(s: PS) -> Step<DiffLemmaM> {
    match s.need_kw("diffLemma"@) {
        (Err(e), s1) => (Err(e), s1),
        (Ok(_), s1) => match s1.ident() {
            (Err(e), s2) => (Err(e), s2),
            (Ok(name), s2) => match lemma_attrs(s2) {
                (Err(e), s3) => (Err(e), s3),
                (Ok(attributes), s3) => match s3.need(":"@) {
                    (Err(e), s4) => (Err(e), s4),
                    (Ok(_), s4) => match diff_skeleton(s4) {
                        (Err(e), s5) => (Err(e), s5),
                        (Ok(p), s5) => (
                            Ok(
                                DiffLemmaM {
                                    name,
                                    source_file: s.place.source_file,
                                    attributes,
                                    proof: p,
                                },
                            ),
                            s5,
                        ),
                    },
                },
            },
        },
    }
}

/// A diff lemma whose name is free.
#[verifier::opaque]
pub open spec fn diff_lemma_item(s: PS) -> Step<DiffLemmaM> {
    match diff_lemma(s) {
        (Err(e), s1) => (Err(e), s1),
        (Ok(l), s1) => if s1.st.seen.diff_lemma_names.contains(l.name) {
            fail_behind_item(s1, "duplicate Diff Lemma: "@ + l.name)
        } else {
            (
                Ok(l),
                PS {
                    st: StateM {
                        seen: SeenM {
                            diff_lemma_names: s1.st.seen.diff_lemma_names.push(l.name),
                            ..s1.st.seen
                        },
                        ..s1.st
                    },
                    ..s1
                },
            )
        },
    }
}

/// A case test.
#[verifier::opaque]
pub open spec fn case_test(s: PS) -> Step<CaseTestM> {
    match s.need_kw("test"@) {
        (Err(e), s1) => (Err(e), s1),
        (Ok(_), s1) => match s1.ident() {
            (Err(e), s2) => (Err(e), s2),
            (Ok(name), s2) => match s2.need(":"@) {
                (Err(e), s3) => (Err(e), s3),
                (Ok(_), s3) => match quoted_formula(s3) {
                    (Err(e), s4) => (Err(e), s4),
                    (Ok(f), s4) => (Ok((CaseTestM { name, formula: f })), s4),
                },
            },
        },
    }
}

/// The attributes of a restriction behind `acc`, and the closing bracket.
pub open spec fn more_sides(s: PS, acc: Seq<RestrictionAttr>) -> Step<Seq<RestrictionAttr>>
    decreases s.rem(),
{
    let w = s.ws();
    let (left, l1) = w.kw("left"@);
    let (right, r1) = w.kw("right"@);
    if left || right {
        let a = if left {
            RestrictionAttr::LeftRestriction
        } else {
            RestrictionAttr::RightRestriction
        };
        let (more, s2) = (if left { l1 } else { r1 }).punct(","@);
        if more {
            more_sides(s2, acc.push(a))
        } else {
            sides_end(s2, acc.push(a))
        }
    } else {
        sides_end(w, acc)
    }
}

pub open spec fn sides_end(s: PS, all: Seq<RestrictionAttr>) -> Step<Seq<RestrictionAttr>> {
    match s.need("]"@) {
        (Ok(_), s1) => (Ok(all), s1),
        (Err(e), s1) => (Err(e), s1),
    }
}

/// The attributes of a restriction.
#[verifier::opaque]
pub open spec fn sides(s: PS) -> Step<Seq<RestrictionAttr>> {
    let (open, s1) = s.punct("["@);
    if open {
        more_sides(s1, Seq::empty())
    } else {
        (Ok(Seq::empty()), s1)
    }
}

/// A restriction behind the word `word`.
#[verifier::opaque]
pub open spec fn restriction_body(s: PS, word: Seq<char>) -> Step<RestrictionM> {
    match s.need_kw(word) {
        (Err(e), s1) => (Err(e), s1),
        (Ok(_), s1) => match s1.ident() {
            (Err(e), s2) => (Err(e), s2),
            (Ok(name), s2) => match sides(s2) {
                (Err(e), s3) => (Err(e), s3),
                (Ok(attributes), s3) => match s3.need(":"@) {
                    (Err(e), s4) => (Err(e), s4),
                    (Ok(_), s4) => match quoted_formula(s4) {
                        (Err(e), s5) => (Err(e), s5),
                        (Ok(f), s5) => (
                            Ok((RestrictionM { name, formula: f, attributes })),
                            s5,
                        ),
                    },
                },
            },
        },
    }
}

/// The state in which the name of the restriction is known.
pub open spec fn knowing_restriction(s: PS, name: Seq<char>) -> PS {
    PS {
        st: StateM {
            seen: SeenM {
                restriction_names: s.st.seen.restriction_names.push(name),
                ..s.st.seen
            },
            ..s.st
        },
        ..s
    }
}

/// A restriction. Its name is free, or it is about one side of a diff theory.
#[verifier::opaque]
pub open spec fn restriction(s: PS, word: Seq<char>) -> Step<RestrictionM> {
    match restriction_body(s, word) {
        (Err(e), s1) => (Err(e), s1),
        (Ok(r), s1) => if !s.place.is_diff && r.attributes.len() == 0
            && s1.st.seen.restriction_names.contains(r.name) {
            fail_behind_item(s1, "duplicate restriction: "@ + r.name)
        } else {
            (Ok(r), knowing_restriction(s1, r.name))
        },
    }
}

/// A restriction in retired notation.
#[verifier::opaque]
pub open spec fn legacy_axiom(s: PS) -> Step<RestrictionM> {
    match restriction(s, "axiom"@) {
        (Err(e), s1) => (Err(e), s1),
        (Ok(r), s1) => (
            Ok(r),
            PS {
                st: StateM {
                    axiom_warning: s1.st.axiom_warning || s1.st.emit_warnings,
                    ..s1.st
                },
                ..s1
            },
        ),
    }
}

fn has_left(v: &Vec<LemmaAttr>) -> (r: bool)
    ensures
        r == v.deep_view().contains(LemmaAttrM::Left),
{
    let mut i: usize = 0;
    while i < v.len()
        invariant
            i <= v@.len(),
            forall|j: int| 0 <= j < i ==> v.deep_view()[j] != LemmaAttrM::Left,
        decreases v@.len() - i,
    {
        assert(v.deep_view()[i as int] == v@[i as int].deep_view());
        match &v[i] {
            LemmaAttr::Left => {
                return true;
            },
            _ => {},
        }
        i = i + 1;
    }
    false
}

fn has_right(v: &Vec<LemmaAttr>) -> (r: bool)
    ensures
        r == v.deep_view().contains(LemmaAttrM::Right),
{
    let mut i: usize = 0;
    while i < v.len()
        invariant
            i <= v@.len(),
            forall|j: int| 0 <= j < i ==> v.deep_view()[j] != LemmaAttrM::Right,
        decreases v@.len() - i,
    {
        assert(v.deep_view()[i as int] == v@[i as int].deep_view());
        match &v[i] {
            LemmaAttr::Right => {
                return true;
            },
            _ => {},
        }
        i = i + 1;
    }
    false
}

fn named_message(what: &str, name: &str) -> (r: String)
    ensures
        r@ == what@ + name@,
{
    let mut m = what.to_string();
    m.push_str(name);
    m
}

impl Parser {
    /// A formula between double quotes.
    pub fn double_quoted_formula(&mut self) -> (r: Result<Formula, ParseError>)
        requires
            old(self).wf(),
        ensures
            final(self).wf(),
            (outcome(r), final(self)@) == quoted_formula(old(self)@),
            old(self)@.fwd(final(self)@),
    {
        proof {
            reveal(quoted_formula);
            reveal(fail_formula_end);
        }
        self.require_punct("\"")?;
        let f = self.formula()?;
        if !self.try_punct("\"") {
            return Err(self.formula_close_error());
        }
        Ok(f)
    }

    fn read_until_attribute_end(&mut self) -> (r: String)
        requires
            old(self).wf(),
        ensures
            final(self).wf(),
            (r@, final(self)@) == attr_value(old(self)@),
            old(self)@.past(final(self)@),
    {
        proof {
            reveal(attr_value);
        }
        let start = self.save();
        let ghost e = value_end(self@.src, self@.at, 0);
        let mut depth: i32 = 0;
        loop
            invariant_except_break
                self.wf(),
                old(self)@.past(self@),
                start.at == old(self)@.at,
                crate::lexer::position_of(self@.src, start),
                -self@.at <= depth <= self@.at,
                value_end(self@.src, self@.at, depth as int) == e,
            ensures
                self.wf(),
                old(self)@.past(self@),
                start.at == old(self)@.at,
                crate::lexer::position_of(self@.src, start),
                self@.at == e,
            decreases self@.rem(),
        {
            let c = match self.peek() {
                Some(c) => c,
                None => {
                    break;
                },
            };
            if depth == 0 && (c == ']' || c == ',') {
                break;
            }
            if c == '[' || c == '(' || c == '{' {
                depth = depth + 1;
            } else if c == ']' || c == ')' || c == '}' {
                depth = depth - 1;
            }
            self.bump();
        }
        let text = self.text_from(start);
        trim_chars(&chars_of(&text))
    }

    #[verifier::spinoff_prover]
    fn valued_attribute(&mut self) -> (r: Result<Option<LemmaAttr>, ParseError>)
        requires
            old(self).wf(),
        ensures
            final(self).wf(),
            (outcome(r), final(self)@) == valued_attr(old(self)@),
            old(self)@.past(final(self)@),
    {
        proof {
            reveal(valued_attr);
        }
        if self.try_kw("hide_lemma") {
            self.require_punct("=")?;
            let id = self.ident()?;
            return Ok(Some(LemmaAttr::HideLemma(id)));
        }
        if self.try_kw("heuristic") {
            self.require_punct("=")?;
            let raw = self.read_until_attribute_end();
            return Ok(Some(LemmaAttr::Heuristic(raw)));
        }
        if self.try_kw("output") {
            self.require_punct("=")?;
            self.require_punct("[")?;
            let names = self.sep_end_names("]")?;
            return Ok(Some(LemmaAttr::Output(names)));
        }
        let raw = self.read_until_attribute_end();
        if raw.as_str().is_empty() {
            return Ok(None);
        }
        let m = named_message("unknown lemma attribute: ", &raw);
        Err(self.err(&m))
    }

    #[verifier::spinoff_prover]
    fn lemma_attribute(&mut self) -> (r: Result<Option<LemmaAttr>, ParseError>)
        requires
            old(self).wf(),
        ensures
            final(self).wf(),
            (outcome(r), final(self)@) == lemma_attr(old(self)@),
            old(self)@.past(final(self)@),
    {
        proof {
            reveal(lemma_attr);
        }
        self.skip_ws();
        if self.try_kw("typing") || self.try_kw("sources") {
            return Ok(Some(LemmaAttr::Sources));
        }
        if self.try_kw("reuse") {
            return Ok(Some(LemmaAttr::Reuse));
        }
        if self.try_kw("diff_reuse") {
            return Ok(Some(LemmaAttr::DiffReuse));
        }
        if self.try_kw("use_induction") {
            return Ok(Some(LemmaAttr::UseInduction));
        }
        if self.try_kw("left") {
            return Ok(Some(LemmaAttr::Left));
        }
        if self.try_kw("right") {
            return Ok(Some(LemmaAttr::Right));
        }
        self.valued_attribute()
    }

    fn lemma_attributes(&mut self) -> (r: Result<Vec<LemmaAttr>, ParseError>)
        requires
            old(self).wf(),
        ensures
            final(self).wf(),
            (outcome(r), final(self)@) == lemma_attrs(old(self)@),
            old(self)@.past(final(self)@),
    {
        proof {
            reveal(lemma_attrs);
        }
        let mut attrs = no_items::<LemmaAttr>();
        if !self.try_punct("[") {
            return Ok(attrs);
        }
        loop
            invariant
                self.wf(),
                old(self)@.past(self@),
                more_lemma_attrs(self@, attrs.deep_view()) == lemma_attrs(old(self)@),
            decreases self@.rem(),
        {
            match self.lemma_attribute()? {
                Some(a) => {
                    put(&mut attrs, a);
                    if !self.try_punct(",") {
                        self.require_punct("]")?;
                        return Ok(attrs);
                    }
                },
                None => {
                    self.require_punct("]")?;
                    return Ok(attrs);
                },
            }
        }
    }

    fn case_test_names(&mut self) -> (r: Vec<String>)
        requires
            old(self).wf(),
        ensures
            final(self).wf(),
            (r.deep_view(), final(self)@) == case_tests(old(self)@, Seq::empty()),
            old(self)@.past(final(self)@),
    {
        let mut v = no_items::<String>();
        loop
            invariant
                self.wf(),
                old(self)@.past(self@),
                case_tests(self@, v.deep_view()) == case_tests(old(self)@, Seq::empty()),
            decreases self@.rem(),
        {
            self.skip_ws();
            let before = self.save();
            match self.identifier() {
                Some(id) => {
                    if same(&id, "accounts") || same(&id, "account") {
                        self.restore(before);
                        return v;
                    }
                    put(&mut v, id);
                    if !self.try_punct(",") {
                        return v;
                    }
                },
                None => {
                    return v;
                },
            }
        }
    }

    fn try_acc_lemma_body(&mut self) -> (r: Result<Option<(Vec<String>, Formula)>, ParseError>)
        requires
            old(self).wf(),
        ensures
            final(self).wf(),
            (outcome(r), final(self)@) == acc_body(old(self)@),
            old(self)@.fwd(final(self)@),
    {
        proof {
            reveal(acc_body);
        }
        let start = self.save();
        let idents = self.case_test_names();
        if idents.len() == 0 || !(self.try_kw("accounts") || self.try_kw("account")) {
            self.restore(start);
            return Ok(None);
        }
        self.require_kw("for")?;
        let f = self.double_quoted_formula()?;
        Ok(Some((idents, f)))
    }

    fn trace_quantifier(&mut self) -> (q: TraceQuantifier)
        requires
            old(self).wf(),
        ensures
            final(self).wf(),
            (q, final(self)@) == quantifier(old(self)@),
            old(self)@.past(final(self)@),
    {
        proof {
            reveal(quantifier);
        }
        if self.try_kw("all-traces") {
            TraceQuantifier::AllTraces
        } else if self.try_kw("exists-trace") {
            TraceQuantifier::ExistsTrace
        } else {
            TraceQuantifier::AllTraces
        }
    }

    fn lemma_header(&mut self) -> (r: Result<(String, Vec<LemmaAttr>), ParseError>)
        requires
            old(self).wf(),
        ensures
            final(self).wf(),
            (outcome(r), final(self)@) == lemma_head(old(self)@),
            old(self)@.past(final(self)@),
            r is Ok ==> old(self)@.at < final(self)@.at,
    {
        proof {
            reveal(lemma_head);
        }
        self.require_kw("lemma")?;
        self.try_modulo();
        let name = self.ident()?;
        let attrs = self.lemma_attributes()?;
        self.require_punct(":")?;
        Ok((name, attrs))
    }

    #[verifier::spinoff_prover]
    fn lemma_rest(&mut self, start: usize, name: &str, attrs: &Vec<LemmaAttr>) -> (r: Result<
        Lemma,
        ParseError,
    >)
        requires
            old(self).wf(),
            start <= old(self)@.at,
        ensures
            final(self).wf(),
            (outcome(r), final(self)@) == lemma_body(
                old(self)@,
                start as int,
                name@,
                attrs.deep_view(),
            ),
            old(self)@.fwd(final(self)@),
    {
        proof {
            reveal(lemma_body);
        }
        let trace_quantifier = self.trace_quantifier();
        let formula = self.double_quoted_formula()?;
        let proof_text = self.try_proof_skeleton()?;
        let end: usize = self.save().at;
        let plaintext = uncomment(&self.lx.src, start, end);
        if proof_text.is_none() {
            self.set_item_hangover(ItemTail::Proof);
        }
        Ok(
            Lemma {
                name: name.to_string(),
                source_file: copy_text_opt(&self.place.source_file),
                attributes: copy_lemma_attrs(attrs),
                trace_quantifier,
                formula,
                proof: proof_text,
                plaintext,
            },
        )
    }

    #[verifier::spinoff_prover]
    fn guard_duplicate_lemma(&mut self, name: &str, attrs: &Vec<LemmaAttr>) -> (r: Result<
        (),
        ParseError,
    >)
        requires
            old(self).wf(),
        ensures
            final(self).wf(),
            (outcome(r), final(self)@) == lemma_guard(old(self)@, name@, attrs.deep_view()),
            old(self)@.within(final(self)@),
    {
        proof {
            reveal(lemma_guard);
        }
        let left = has_left(attrs) || !has_right(attrs);
        let right = !has_left(attrs);
        let is_diff = self.place.is_diff;
        let taken = if is_diff {
            (left && has_text(&self.st.seen.diff_left_lemma_names, name)) || (right && has_text(
                &self.st.seen.diff_right_lemma_names,
                name,
            ))
        } else {
            has_text(&self.st.seen.lemma_names, name)
        };
        if taken {
            let m = named_message("duplicate lemma: ", name);
            return Err(self.item_fail(&m));
        }
        if !is_diff {
            put(&mut self.st.seen.lemma_names, name.to_string());
        }
        if is_diff && left {
            put(&mut self.st.seen.diff_left_lemma_names, name.to_string());
        }
        if is_diff && right {
            put(&mut self.st.seen.diff_right_lemma_names, name.to_string());
        }
        Ok(())
    }

    /// A lemma, or an accountability lemma.
    #[verifier::spinoff_prover]
    pub fn lemma_item(&mut self) -> (r: Result<TheoryItem, ParseError>)
        requires
            old(self).wf(),
        ensures
            final(self).wf(),
            (outcome(r), final(self)@) == lemma_item(old(self)@),
            old(self)@.within(final(self)@),
            r matches Ok(x) ==> follows(old(self)@, x.deep_view(), final(self)@),
            r is Ok ==> old(self)@.at < final(self)@.at,
    {
        proof {
            reveal(lemma_item);
            reveal(fits);
            reveal(noted);
        }
        let start: usize = self.save().at;
        let (name, attrs) = self.lemma_header()?;
        match self.try_acc_lemma_body()? {
            Some((idents, formula)) => {
                return Ok(
                    TheoryItem::AccLemma(
                        AccLemma {
                            name,
                            source_file: copy_text_opt(&self.place.source_file),
                            attributes: attrs,
                            formula,
                            case_test_idents: idents,
                        },
                    ),
                );
            },
            None => {},
        }
        proof {
            reveal(lemma_body);
            reveal(lemma_guard);
        }
        let l = self.lemma_rest(start, &name, &attrs)?;
        self.guard_duplicate_lemma(&name, &attrs)?;
        Ok(TheoryItem::Lemma(l))
    }

    #[verifier::spinoff_prover]
    fn diff_lemma(&mut self) -> (r: Result<DiffLemma, ParseError>)
        requires
            old(self).wf(),
        ensures
            final(self).wf(),
            (outcome(r), final(self)@) == diff_lemma(old(self)@),
            old(self)@.past(final(self)@),
            r is Ok ==> old(self)@.at < final(self)@.at,
    {
        proof {
            reveal(diff_lemma);
        }
        self.require_kw("diffLemma")?;
        let name = self.ident()?;
        let attributes = self.lemma_attributes()?;
        self.require_punct(":")?;
        let text = self.try_diff_proof_skeleton()?;
        Ok(
            DiffLemma {
                name,
                source_file: copy_text_opt(&self.place.source_file),
                attributes,
                proof: text,
            },
        )
    }

    /// A diff lemma.
    pub fn diff_lemma_item(&mut self) -> (r: Result<DiffLemma, ParseError>)
        requires
            old(self).wf(),
        ensures
            final(self).wf(),
            (outcome(r), final(self)@) == diff_lemma_item(old(self)@),
            old(self)@.within(final(self)@),
            r matches Ok(l) ==> follows(old(self)@, ItemM::DiffLemma(l.deep_view()), final(self)@),
            r is Ok ==> old(self)@.at < final(self)@.at,
    {
        proof {
            reveal(diff_lemma_item);
            reveal(fits);
            reveal(noted);
        }
        let l = self.diff_lemma()?;
        if has_text(&self.st.seen.diff_lemma_names, &l.name) {
            let m = named_message("duplicate Diff Lemma: ", &l.name);
            return Err(self.item_fail(&m));
        }
        put(&mut self.st.seen.diff_lemma_names, l.name.clone());
        Ok(l)
    }

    /// A case test.
    pub fn case_test_item(&mut self) -> (r: Result<CaseTest, ParseError>)
        requires
            old(self).wf(),
        ensures
            final(self).wf(),
            (outcome(r), final(self)@) == case_test(old(self)@),
            old(self)@.fwd(final(self)@),
            r is Ok ==> old(self)@.at < final(self)@.at,
    {
        proof {
            reveal(case_test);
        }
        self.require_kw("test")?;
        let name = self.ident()?;
        self.require_punct(":")?;
        let formula = self.double_quoted_formula()?;
        Ok(CaseTest { name, formula })
    }

    fn restriction_sides(&mut self) -> (r: Result<Vec<RestrictionAttr>, ParseError>)
        requires
            old(self).wf(),
        ensures
            final(self).wf(),
            (outcome(r), final(self)@) == sides(old(self)@),
            old(self)@.past(final(self)@),
    {
        proof {
            reveal(sides);
        }
        let mut v = no_items::<RestrictionAttr>();
        if !self.try_punct("[") {
            return Ok(v);
        }
        loop
            invariant
                self.wf(),
                old(self)@.past(self@),
                more_sides(self@, v.deep_view()) == sides(old(self)@),
            decreases self@.rem(),
        {
            self.skip_ws();
            let a = if self.try_kw("left") {
                RestrictionAttr::LeftRestriction
            } else if self.try_kw("right") {
                RestrictionAttr::RightRestriction
            } else {
                self.require_punct("]")?;
                return Ok(v);
            };
            put(&mut v, a);
            if !self.try_punct(",") {
                self.require_punct("]")?;
                return Ok(v);
            }
        }
    }

    #[verifier::spinoff_prover]
    fn restriction_text(&mut self, word: &str) -> (r: Result<Restriction, ParseError>)
        requires
            old(self).wf(),
        ensures
            final(self).wf(),
            (outcome(r), final(self)@) == restriction_body(old(self)@, word@),
            old(self)@.fwd(final(self)@),
            r is Ok ==> old(self)@.at < final(self)@.at,
    {
        proof {
            reveal(restriction_body);
        }
        self.require_kw(word)?;
        let name = self.ident()?;
        let attributes = self.restriction_sides()?;
        self.require_punct(":")?;
        let formula = self.double_quoted_formula()?;
        Ok(Restriction { name, formula, attributes })
    }

    /// A restriction behind the word `word`.
    pub fn restriction(&mut self, word: &str) -> (r: Result<Restriction, ParseError>)
        requires
            old(self).wf(),
        ensures
            final(self).wf(),
            (outcome(r), final(self)@) == restriction(old(self)@, word@),
            old(self)@.within(final(self)@),
            r matches Ok(q) ==> follows(
                old(self)@,
                ItemM::Restriction(q.deep_view()),
                final(self)@,
            ),
            r is Ok ==> old(self)@.at < final(self)@.at,
    {
        proof {
            reveal(restriction);
            reveal(fits);
            reveal(noted);
        }
        let r = self.restriction_text(word)?;
        if !self.place.is_diff && r.attributes.len() == 0 && has_text(
            &self.st.seen.restriction_names,
            &r.name,
        ) {
            let m = named_message("duplicate restriction: ", &r.name);
            return Err(self.item_fail(&m));
        }
        put(&mut self.st.seen.restriction_names, r.name.clone());
        Ok(r)
    }

    /// A restriction in retired notation.
    pub fn legacy_axiom(&mut self) -> (r: Result<Restriction, ParseError>)
        requires
            old(self).wf(),
        ensures
            final(self).wf(),
            (outcome(r), final(self)@) == legacy_axiom(old(self)@),
            old(self)@.within(final(self)@),
            r matches Ok(q) ==> follows(
                old(self)@,
                ItemM::LegacyAxiom(q.deep_view()),
                final(self)@,
            ),
            r is Ok ==> old(self)@.at < final(self)@.at,
    {
        proof {
            reveal(legacy_axiom);
            reveal(fits);
            reveal(noted);
        }
        let r = self.restriction("axiom")?;
        if self.st.emit_warnings {
            self.st.axiom_warning = true;
        }
        Ok(r)
    }
}

} // verus!
