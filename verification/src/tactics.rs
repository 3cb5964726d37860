//! Options, heuristics and tactics.

use crate::ast::{
    DeclarableOption, LeafM, PrioBlock, PrioM, SelectorExpr, SelectorLeaf, SelectorM, Tactic,
    TacticM,
};
use crate::basics::labels2;
use crate::error::{outcome, Message, MessageM, ParseError};
use crate::model::{no_items, one_item, put};
use crate::state::{group_steps, Parser, Step, PS};
use crate::text::{chars_of, quote, quoted, trim_chars, trimmed};
use crate::tokens::{alpha_end, line_end};
use vstd::prelude::*;

verus! {

broadcast use {group_steps, crate::tokens::group_lexer};

/// The first option from `i` on that comes next.
pub open spec fn option_from(s: PS, i: int) -> (Option<Seq<char>>, PS)
    decreases DeclarableOption::listed().len() - i,
{
    let all = DeclarableOption::listed();
    if i < 0 || i >= all.len() {
        (None, s)
    } else {
        let (ok, s1) = s.punct(all[i].text());
        if ok {
            (Some(all[i].text()), s1)
        } else {
            option_from(s1, i + 1)
        }
    }
}

/// The options as labels.
pub open spec fn option_labels() -> Seq<Seq<char>> {
    let all = DeclarableOption::listed();
    Seq::new(all.len(), |i: int| quoted(all[i].text()))
}

/// The options behind `acc`.
pub open spec fn more_options(s: PS, acc: Seq<Seq<char>>) -> Step<Seq<Seq<char>>>
    decreases s.rem(),
{
    match option_from(s, 0) {
        (None, s1) => s1.fail_expect(option_labels()),
        (Some(name), s1) => {
            let (more, s2) = s1.punct(","@);
            if more && s.past(s1) {
                more_options(s2, acc.push(name))
            } else {
                (Ok(acc.push(name)), s2)
            }
        },
    }
}

/// The options that a theory declares.
#[verifier::opaque]
pub open spec fn options(s: PS) -> Step<Seq<Seq<char>>> {
    match s.need_kw("options"@) {
        (Err(e), s1) => (Err(e), s1),
        (Ok(_), s1) => match s1.need(":"@) {
            (Err(e), s2) => (Err(e), s2),
            (Ok(_), s2) => more_options(s2, Seq::empty()),
        },
    }
}

/// The rest of the line, without the space around it.
#[verifier::opaque]
pub open spec fn heuristic(s: PS) -> Step<Seq<char>> {
    match s.need_kw("heuristic"@) {
        (Err(e), s1) => (Err(e), s1),
        (Ok(_), s1) => match s1.need(":"@) {
            (Err(e), s2) => (Err(e), s2),
            (Ok(_), s2) => {
                let e = line_end(s2.src, s2.at);
                (Ok(trimmed(s2.src.subrange(s2.at, e))), s2.to(e))
            },
        },
    }
}

/// The next double quote at or behind `i`.
pub open spec fn next_quote(src: Seq<char>, i: int) -> int
    decreases src.len() - i,
{
    if 0 <= i < src.len() && src[i] != '"' {
        next_quote(src, i + 1)
    } else {
        i
    }
}

pub broadcast proof fn lemma_next_quote(src: Seq<char>, i: int)
    ensures
        i <= #[trigger] next_quote(src, i),
        i <= src.len() ==> next_quote(src, i) <= src.len(),
    decreases src.len() - i,
{
    if 0 <= i < src.len() && src[i] != '"' {
        lemma_next_quote(src, i + 1);
    }
}

/// An argument of a selector: every character up to the closing quote stands
/// for itself.
pub open spec fn selector_param(s: PS) -> (Option<Seq<char>>, PS) {
    let w = s.ws();
    let e = next_quote(w.src, w.at + 1);
    if w.peek() == Some('"') && w.at < e < w.src.len() {
        (Some(w.src.subrange(w.at + 1, e)), w.to(e + 1).ws())
    } else {
        (None, w)
    }
}

pub open spec fn selector_params(s: PS, acc: Seq<Seq<char>>) -> (Seq<Seq<char>>, PS)
    decreases s.rem(),
{
    match selector_param(s) {
        (Some(p), s1) => selector_params(s1, acc.push(p)),
        (None, s1) => (acc, s1),
    }
}

/// A named selector with at least one argument.
#[verifier::opaque]
pub open spec fn selector_leaf(s: PS) -> (Option<SelectorM>, PS) {
    match s.name() {
        (None, _) => (None, s),
        (Some(name), s1) => {
            let (params, s2) = selector_params(s1, Seq::empty());
            if params.len() == 0 {
                (None, s)
            } else {
                (Some(SelectorM::Leaf(LeafM { name, params })), s2)
            }
        },
    }
}

#[verifier::opaque]
pub open spec fn selector_negation(s: PS) -> Step<Option<SelectorM>> {
    let (neg, s1) = s.word_or("not"@, "¬"@);
    match selector_leaf(s1) {
        (Some(a), s2) => (
            Ok(
                Some(
                    if neg {
                        SelectorM::Not(Box::new(a))
                    } else {
                        a
                    },
                ),
            ),
            s2,
        ),
        (None, s2) => if neg {
            (Err(s2.err("expected tactic selector after negation"@)), s2)
        } else {
            (Ok(None), s2)
        },
    }
}

pub open spec fn more_selector_conjuncts(s: PS, a: SelectorM) -> Step<Option<SelectorM>>
    decreases s.rem(),
{
    let (more, s1) = s.either("&"@, "∧"@);
    if !more {
        (Ok(Some(a)), s1)
    } else {
        match selector_negation(s1) {
            (Err(e), s2) => (Err(e), s2),
            (Ok(None), s2) => (
                Err(s2.err("expected tactic selector after conjunction"@)),
                s2,
            ),
            (Ok(Some(b)), s2) => if s1.past(s2) {
                more_selector_conjuncts(s2, SelectorM::And(Box::new(a), Box::new(b)))
            } else {
                (Ok(Some(a)), s1)
            },
        }
    }
}

#[verifier::opaque]
pub open spec fn selector_conjunction(s: PS) -> Step<Option<SelectorM>> {
    match selector_negation(s) {
        (Err(e), s1) => (Err(e), s1),
        (Ok(None), s1) => (Ok(None), s1),
        (Ok(Some(a)), s1) => more_selector_conjuncts(s1, a),
    }
}

pub open spec fn more_selector_disjuncts(s: PS, a: SelectorM) -> Step<Option<SelectorM>>
    decreases s.rem(),
{
    let (more, s1) = s.either("|"@, "∨"@);
    if !more {
        (Ok(Some(a)), s1)
    } else {
        match selector_conjunction(s1) {
            (Err(e), s2) => (Err(e), s2),
            (Ok(None), s2) => (
                Err(s2.err("expected tactic selector after disjunction"@)),
                s2,
            ),
            (Ok(Some(b)), s2) => if s1.past(s2) {
                more_selector_disjuncts(s2, SelectorM::Or(Box::new(a), Box::new(b)))
            } else {
                (Ok(Some(a)), s1)
            },
        }
    }
}

#[verifier::opaque]
pub open spec fn selector_disjunction(s: PS) -> Step<Option<SelectorM>> {
    match selector_conjunction(s) {
        (Err(e), s1) => (Err(e), s1),
        (Ok(None), s1) => (Ok(None), s1),
        (Ok(Some(a)), s1) => more_selector_disjuncts(s1, a),
    }
}

/// The selectors of a block behind `acc`.
pub open spec fn selectors(s: PS, acc: Seq<SelectorM>) -> Step<Seq<SelectorM>>
    decreases s.rem(),
{
    if s.at_kw("prio"@) || s.at_kw("deprio"@) || s.at_kw("presort"@) {
        (Ok(acc), s)
    } else {
        match selector_disjunction(s) {
            (Err(e), s1) => (Err(e), s1),
            (Ok(None), s1) => (Ok(acc), s1),
            (Ok(Some(x)), s1) => if s.past(s1) && s.at < s1.at {
                selectors(s1, acc.push(x))
            } else {
                (Ok(acc), s1)
            },
        }
    }
}

/// The ranking of a block.
#[verifier::opaque]
pub open spec fn block_ranking(s: PS) -> Step<Seq<char>> {
    let (open, s1) = s.punct("{"@);
    if open {
        match s1.ident() {
            (Err(e), s2) => (Err(e), s2),
            (Ok(r), s2) => match s2.need("}"@) {
                (Err(e), s3) => (Err(e), s3),
                (Ok(_), s3) => (Ok(r), s3),
            },
        }
    } else {
        (Ok("id"@), s1)
    }
}

/// A block of a tactic, behind its word.
#[verifier::opaque]
pub open spec fn prio_block(s: PS) -> Step<PrioM> {
    match s.need(":"@) {
        (Err(e), s1) => (Err(e), s1),
        (Ok(_), s1) => match block_ranking(s1) {
            (Err(e), s2) => (Err(e), s2),
            (Ok(ranking), s2) => match selectors(s2, Seq::empty()) {
                (Err(e), s3) => (Err(e), s3),
                (Ok(xs), s3) => if xs.len() == 0 {
                    match s3.ident() {
                        (Err(e), s4) => (Err(e), s4),
                        (Ok(_), s4) => s4.fail_expect(seq!["letter or digit"@, "\"\\\"\""@]),
                    }
                } else {
                    (Ok((PrioM { ranking, selectors: xs })), s3)
                },
            },
        },
    }
}

/// The blocks behind `acc` that start with `word`.
pub open spec fn prio_blocks(s: PS, word: Seq<char>, acc: Seq<PrioM>) -> Step<Seq<PrioM>>
    decreases s.rem(),
{
    let (more, s1) = s.kw(word);
    if !more {
        (Ok(acc), s1)
    } else {
        match prio_block(s1) {
            (Err(e), s2) => (Err(e), s2),
            (Ok(b), s2) => if s1.past(s2) {
                prio_blocks(s2, word, acc.push(b))
            } else {
                (Ok(acc), s1)
            },
        }
    }
}

/// The letters that name a ranking.
pub open spec fn ranking_letter(w: Seq<char>, is_diff: bool) -> bool {
    w.len() == 1 && (w[0] == 's' || w[0] == 'S' || w[0] == 'c' || w[0] == 'C' || (!is_diff && (w[0]
        == 'p' || w[0] == 'P' || w[0] == 'i' || w[0] == 'I')))
}

/// The ranking that a tactic sorts by first.
#[verifier::opaque]
pub open spec fn presort(s: PS) -> Step<char> {
    let (word, s1) = s.kw("presort"@);
    if !word {
        (Ok('s'), s1)
    } else {
        match s1.need(":"@) {
            (Err(e), s2) => (Err(e), s2),
            (Ok(_), s2) => {
                let e = alpha_end(s2.src, s2.at);
                let w = s2.src.subrange(s2.at, e);
                let s3 = s2.to(e).ws();
                if w.len() == 0 {
                    (Err(s2.error(seq![MessageM::Expect("letter"@)])), s2)
                } else if !ranking_letter(w, s.place.is_diff) {
                    (
                        Err(s3.err("unknown proof method ranking `"@ + w + "`"@)),
                        s3,
                    )
                } else {
                    (Ok(w[0]), s3)
                }
            },
        }
    }
}

/// A tactic.
#[verifier::opaque]
pub open spec fn tactic(s: PS) -> Step<TacticM> {
    match s.need_kw("tactic"@) {
        (Err(e), s1) => (Err(e), s1),
        (Ok(_), s1) => match s1.need(":"@) {
            (Err(e), s2) => (Err(e), s2),
            (Ok(_), s2) => match s2.ident() {
                (Err(e), s3) => (Err(e), s3),
                (Ok(name), s3) => match presort(s3) {
                    (Err(e), s4) => (Err(e), s4),
                    (Ok(presort), s4) => match prio_blocks(s4, "prio"@, Seq::empty()) {
                        (Err(e), s5) => (Err(e), s5),
                        (Ok(prios), s5) => match prio_blocks(s5, "deprio"@, Seq::empty()) {
                            (Err(e), s6) => (Err(e), s6),
                            (Ok(deprios), s6) => (
                                Ok((TacticM { name, presort, prios, deprios })),
                                s6,
                            ),
                        },
                    },
                },
            },
        },
    }
}

fn negate(a: SelectorExpr) -> (r: SelectorExpr)
    ensures
        r.deep_view() == SelectorM::Not(Box::new(a.deep_view())),
{
    SelectorExpr::Not(Box::new(a))
}

impl Parser {
    fn declared_option(&mut self) -> (r: Option<String>)
        requires
            old(self).wf(),
        ensures
            final(self).wf(),
            (r.deep_view(), final(self)@) == option_from(old(self)@, 0),
            old(self)@.past(final(self)@),
            r is Some ==> old(self)@.at < final(self)@.at,
    {
        let all = DeclarableOption::all();
        let mut i: usize = 0;
        while i < all.len()
            invariant
                self.wf(),
                i <= all@.len(),
                all@ == DeclarableOption::listed(),
                old(self)@.past(self@),
                option_from(self@, i as int) == option_from(old(self)@, 0),
            decreases all@.len() - i,
        {
            let name = all[i].as_str();
            if self.try_punct(name) {
                return Some(name.to_string());
            }
            i = i + 1;
        }
        None
    }

    fn option_label_list() -> (v: Vec<String>)
        ensures
            v.deep_view() == option_labels(),
    {
        let all = DeclarableOption::all();
        let mut v = no_items::<String>();
        let mut i: usize = 0;
        while i < all.len()
            invariant
                i <= all@.len(),
                all@ == DeclarableOption::listed(),
                v.deep_view() == option_labels().take(i as int),
            decreases all@.len() - i,
        {
            put(&mut v, quote(all[i].as_str()));
            i = i + 1;
            assert(v.deep_view() =~= option_labels().take(i as int));
        }
        assert(v.deep_view() =~= option_labels());
        v
    }

    /// The options that a theory declares.
    pub fn options(&mut self) -> (r: Result<Vec<String>, ParseError>)
        requires
            old(self).wf(),
        ensures
            final(self).wf(),
            (outcome(r), final(self)@) == options(old(self)@),
            old(self)@.past(final(self)@),
            r is Ok ==> old(self)@.at < final(self)@.at,
    {
        proof {
            reveal(options);
        }
        self.require_kw("options")?;
        self.require_punct(":")?;
        let ghost start = self@;
        let mut names = no_items::<String>();
        loop
            invariant
                self.wf(),
                old(self)@.past(start),
                old(self)@.at < start.at,
                start.past(self@),
                more_options(self@, names.deep_view()) == options(old(self)@),
            decreases self@.rem(),
        {
            match self.declared_option() {
                Some(name) => {
                    put(&mut names, name);
                    if !self.try_punct(",") {
                        return Ok(names);
                    }
                },
                None => {
                    return Err(self.err_expect(Self::option_label_list()));
                },
            }
        }
    }

    /// The rest of the line.
    pub fn heuristic(&mut self) -> (r: Result<String, ParseError>)
        requires
            old(self).wf(),
        ensures
            final(self).wf(),
            (outcome(r), final(self)@) == heuristic(old(self)@),
            old(self)@.past(final(self)@),
            r is Ok ==> old(self)@.at < final(self)@.at,
    {
        proof {
            reveal(heuristic);
        }
        self.require_kw("heuristic")?;
        self.require_punct(":")?;
        let start = self.save();
        let ghost e = line_end(self@.src, self@.at);
        loop
            invariant_except_break
                self.wf(),
                old(self)@.past(self@),
                old(self)@.at < start.at <= self@.at,
                crate::lexer::position_of(self@.src, start),
                line_end(self@.src, self@.at) == e,
            ensures
                self.wf(),
                old(self)@.past(self@),
                old(self)@.at < start.at <= self@.at,
                crate::lexer::position_of(self@.src, start),
                self@.at == e,
            decreases self@.rem(),
        {
            match self.peek() {
                Some(c) => {
                    if c == '\n' {
                        break;
                    }
                    self.bump();
                },
                None => {
                    break;
                },
            }
        }
        let raw = self.text_from(start);
        Ok(trim_chars(&chars_of(&raw)))
    }

    fn tactic_function_param(&mut self) -> (r: Option<String>)
        requires
            old(self).wf(),
        ensures
            final(self).wf(),
            (r.deep_view(), final(self)@) == selector_param(old(self)@),
            old(self)@.past(final(self)@),
            r is Some ==> old(self)@.at < final(self)@.at,
    {
        self.skip_ws();
        let start = self.save();
        if self.peek() != Some('"') {
            return None;
        }
        self.bump();
        let from = self.save();
        let ghost e = next_quote(self@.src, self@.at);
        proof {
            lemma_next_quote(self@.src, self@.at);
        }
        loop
            invariant
                self.wf(),
                old(self)@.past(self@),
                start.at == old(self)@.ws().at,
                crate::lexer::position_of(self@.src, start),
                crate::lexer::position_of(self@.src, from),
                from.at == start.at + 1,
                from.at <= self@.at,
                old(self)@.ws().peek() == Some('"'),
                next_quote(self@.src, self@.at) == e,
                e == next_quote(self@.src, from.at as int),
                e <= self@.src.len(),
            decreases self@.rem(),
        {
            match self.peek() {
                Some(c) => {
                    if c == '"' {
                        let text = self.text_from(from);
                        self.bump();
                        self.skip_ws();
                        return Some(text);
                    }
                    self.bump();
                },
                None => {
                    self.restore(start);
                    return None;
                },
            }
        }
    }

    fn tactic_function(&mut self) -> (r: Option<SelectorExpr>)
        requires
            old(self).wf(),
        ensures
            final(self).wf(),
            (r.deep_view(), final(self)@) == selector_leaf(old(self)@),
            old(self)@.past(final(self)@),
            r is Some ==> old(self)@.at < final(self)@.at,
    {
        proof {
            reveal(selector_leaf);
        }
        let start = self.save();
        let name = match self.identifier() {
            Some(name) => name,
            None => {
                return None;
            },
        };
        let ghost after = self@;
        let mut params = no_items::<String>();
        loop
            invariant_except_break
                self.wf(),
                old(self)@.past(after),
                old(self)@.at < after.at,
                after.past(self@),
                selector_params(self@, params.deep_view()) == selector_params(
                    after,
                    Seq::empty(),
                ),
            ensures
                self.wf(),
                old(self)@.past(after),
                old(self)@.at < after.at,
                after.past(self@),
                selector_params(after, Seq::empty()) == (params.deep_view(), self@),
            decreases self@.rem(),
        {
            match self.tactic_function_param() {
                Some(p) => {
                    put(&mut params, p);
                },
                None => {
                    break;
                },
            }
        }
        if params.len() == 0 {
            self.restore(start);
            return None;
        }
        Some(SelectorExpr::Leaf(SelectorLeaf { name, params }))
    }

    fn tactic_negation(&mut self) -> (r: Result<Option<SelectorExpr>, ParseError>)
        requires
            old(self).wf(),
        ensures
            final(self).wf(),
            (outcome(r), final(self)@) == selector_negation(old(self)@),
            old(self)@.past(final(self)@),
            (r matches Ok(o) && o is Some) ==> old(self)@.at < final(self)@.at,
    {
        proof {
            reveal(selector_negation);
        }
        let neg = self.try_word_or("not", "¬");
        match self.tactic_function() {
            Some(a) => {
                if neg {
                    Ok(Some(negate(a)))
                } else {
                    Ok(Some(a))
                }
            },
            None => {
                if neg {
                    Err(self.err("expected tactic selector after negation"))
                } else {
                    Ok(None)
                }
            },
        }
    }

    fn tactic_conjunction(&mut self) -> (r: Result<Option<SelectorExpr>, ParseError>)
        requires
            old(self).wf(),
        ensures
            final(self).wf(),
            (outcome(r), final(self)@) == selector_conjunction(old(self)@),
            old(self)@.past(final(self)@),
            (r matches Ok(o) && o is Some) ==> old(self)@.at < final(self)@.at,
    {
        proof {
            reveal(selector_conjunction);
        }
        let mut a = match self.tactic_negation()? {
            Some(a) => a,
            None => {
                return Ok(None);
            },
        };
        loop
            invariant
                self.wf(),
                old(self)@.past(self@),
                old(self)@.at < self@.at,
                more_selector_conjuncts(self@, a.deep_view()) == selector_conjunction(old(self)@),
            decreases self@.rem(),
        {
            if !self.try_either("&", "∧") {
                return Ok(Some(a));
            }
            match self.tactic_negation()? {
                Some(b) => {
                    a = SelectorExpr::And(Box::new(a), Box::new(b));
                },
                None => {
                    return Err(self.err("expected tactic selector after conjunction"));
                },
            }
        }
    }

    fn tactic_disjunction(&mut self) -> (r: Result<Option<SelectorExpr>, ParseError>)
        requires
            old(self).wf(),
        ensures
            final(self).wf(),
            (outcome(r), final(self)@) == selector_disjunction(old(self)@),
            old(self)@.past(final(self)@),
            (r matches Ok(o) && o is Some) ==> old(self)@.at < final(self)@.at,
    {
        proof {
            reveal(selector_disjunction);
        }
        let mut a = match self.tactic_conjunction()? {
            Some(a) => a,
            None => {
                return Ok(None);
            },
        };
        loop
            invariant
                self.wf(),
                old(self)@.past(self@),
                old(self)@.at < self@.at,
                more_selector_disjuncts(self@, a.deep_view()) == selector_disjunction(old(self)@),
            decreases self@.rem(),
        {
            if !self.try_either("|", "∨") {
                return Ok(Some(a));
            }
            match self.tactic_conjunction()? {
                Some(b) => {
                    a = SelectorExpr::Or(Box::new(a), Box::new(b));
                },
                None => {
                    return Err(self.err("expected tactic selector after disjunction"));
                },
            }
        }
    }

    fn block_selectors(&mut self) -> (r: Result<Vec<SelectorExpr>, ParseError>)
        requires
            old(self).wf(),
        ensures
            final(self).wf(),
            (outcome(r), final(self)@) == selectors(old(self)@, Seq::empty()),
            old(self)@.past(final(self)@),
    {
        let mut v = no_items::<SelectorExpr>();
        loop
            invariant
                self.wf(),
                old(self)@.past(self@),
                selectors(self@, v.deep_view()) == selectors(old(self)@, Seq::empty()),
            decreases self@.rem(),
        {
            if self.at_keyword("prio") || self.at_keyword("deprio") || self.at_keyword("presort") {
                return Ok(v);
            }
            match self.tactic_disjunction()? {
                Some(x) => {
                    put(&mut v, x);
                },
                None => {
                    return Ok(v);
                },
            }
        }
    }

    fn ranking_name(&mut self) -> (r: Result<String, ParseError>)
        requires
            old(self).wf(),
        ensures
            final(self).wf(),
            (outcome(r), final(self)@) == block_ranking(old(self)@),
            old(self)@.past(final(self)@),
    {
        proof {
            reveal(block_ranking);
        }
        if self.try_punct("{") {
            let r = self.ident()?;
            self.require_punct("}")?;
            Ok(r)
        } else {
            Ok("id".to_string())
        }
    }

    fn tactic_prio_block(&mut self) -> (r: Result<PrioBlock, ParseError>)
        requires
            old(self).wf(),
        ensures
            final(self).wf(),
            (outcome(r), final(self)@) == prio_block(old(self)@),
            old(self)@.past(final(self)@),
    {
        proof {
            reveal(prio_block);
        }
        self.require_punct(":")?;
        let ranking = self.ranking_name()?;
        let selectors = self.block_selectors()?;
        if selectors.len() == 0 {
            self.ident()?;
            return Err(self.err_expect(labels2("letter or digit", "\"\\\"\"")));
        }
        Ok(PrioBlock { ranking, selectors })
    }

    fn tactic_blocks(&mut self, word: &str) -> (r: Result<Vec<PrioBlock>, ParseError>)
        requires
            old(self).wf(),
        ensures
            final(self).wf(),
            (outcome(r), final(self)@) == prio_blocks(old(self)@, word@, Seq::empty()),
            old(self)@.past(final(self)@),
    {
        let mut v = no_items::<PrioBlock>();
        loop
            invariant
                self.wf(),
                old(self)@.past(self@),
                prio_blocks(self@, word@, v.deep_view()) == prio_blocks(
                    old(self)@,
                    word@,
                    Seq::empty(),
                ),
            decreases self@.rem(),
        {
            if !self.try_kw(word) {
                return Ok(v);
            }
            let b = self.tactic_prio_block()?;
            put(&mut v, b);
        }
    }

    fn tactic_presort(&mut self) -> (r: Result<char, ParseError>)
        requires
            old(self).wf(),
        ensures
            final(self).wf(),
            (outcome(r), final(self)@) == presort(old(self)@),
            old(self)@.past(final(self)@),
    {
        proof {
            reveal(presort);
        }
        if !self.try_kw("presort") {
            return Ok('s');
        }
        self.require_punct(":")?;
        let start = self.save();
        let word = self.lx.ascii_alpha_run();
        let letters = chars_of(&word);
        if letters.len() == 0 {
            self.restore(start);
            return Err(self.error_here(one_item(Message::Expect("letter".to_string()))));
        }
        self.skip_ws();
        let c = letters[0];
        let known = letters.len() == 1 && (c == 's' || c == 'S' || c == 'c' || c == 'C' || (
        !self.place.is_diff && (c == 'p' || c == 'P' || c == 'i' || c == 'I')));
        if !known {
            let mut m = "unknown proof method ranking `".to_string();
            m.push_str(&word);
            m.push_str("`");
            return Err(self.err(&m));
        }
        Ok(c)
    }

    /// A tactic.
    #[verifier::spinoff_prover]
    pub fn tactic(&mut self) -> (r: Result<Tactic, ParseError>)
        requires
            old(self).wf(),
        ensures
            final(self).wf(),
            (outcome(r), final(self)@) == tactic(old(self)@),
            old(self)@.past(final(self)@),
            r is Ok ==> old(self)@.at < final(self)@.at,
    {
        proof {
            reveal(tactic);
        }
        self.require_kw("tactic")?;
        self.require_punct(":")?;
        let name = self.ident()?;
        let presort = self.tactic_presort()?;
        let prios = self.tactic_blocks("prio")?;
        let deprios = self.tactic_blocks("deprio")?;
        Ok(Tactic { name, presort, prios, deprios })
    }
}

} // verus!
