//! Rules.

use crate::ast::{
    Fact, FactM, Formula, FormulaM, ItemM, LSort, Rule, RuleAttrM, RuleM, RuleSides, RuleSidesM,
    Term, TermM, VarM, VarSpec,
};
use crate::attrs::rule_attrs;
use crate::basics::{fail_behind_item, item_ended, labels1, labels2};
use crate::error::{outcome, ErrorM, Message, MessageM, ParseError};
use crate::facts::{fact, fact_list};
use crate::formulas::formula;
use crate::model::{no_items, put, put_at};
use crate::names::{fits, follows, lemma_first_taken, noted};
use crate::state::{group_steps, step, ItemTail, Parser, SeenM, StateM, Step, PS};
use crate::subst::{facts_under, formulas_under, let_facts, let_formulas};
use crate::terms::term;
use crate::text::{decimal, has_text, same, to_decimal};
use crate::tokens::offset_at;
use crate::values::{copy_rule, copy_text_opt, same_rule};
use crate::vars::{suffixed, var_head, var_noted};
use vstd::prelude::*;

verus! {

broadcast use {group_steps, crate::tokens::group_lexer, crate::ast::group_models};

/// The theory modulo which a rule is written, if it says so.
#[verifier::opaque]
pub open spec fn modulo(s: PS) -> (Option<Seq<char>>, PS) {
    let (open, s1) = s.punct("("@);
    if !open {
        (None, s1)
    } else {
        let (word, s2) = s1.kw("modulo"@);
        if !word {
            (None, s)
        } else {
            match s2.ident() {
                (Err(_), _) => (None, s),
                (Ok(id), s3) => {
                    let (close, s4) = s3.punct(")"@);
                    if close {
                        (Some(id), s4)
                    } else {
                        (None, s)
                    }
                },
            }
        }
    }
}

/// The error where a rule has no name. `start` is the offset of the word
/// `rule`, where the rule is an item of a theory.
#[verifier::opaque]
pub open spec fn no_rule_name(s: PS, start: Option<usize>) -> Step<Seq<char>> {
    let w = s.ws();
    let found = seq![
        MessageM::SysUnExpect(w.token()),
        MessageM::Expect("\"(\""@),
        MessageM::Expect("identifier"@),
    ];
    match w.reserved_error() {
        Some(e) => (Err(e), w),
        None => (
            Err(
                w.error(
                    if start is Some && offset_at(w.src, w.at) == start->0 + 4 {
                        found + seq![MessageM::Expect("letter"@), MessageM::Expect("\"{*\""@)]
                    } else {
                        found
                    },
                ),
            ),
            w,
        ),
    }
}

/// The name of a rule.
pub open spec fn rule_name(s: PS, start: Option<usize>) -> Step<Seq<char>> {
    match s.name() {
        (Some(id), s1) => (Ok(id), s1),
        (None, s1) => no_rule_name(s1, start),
    }
}

/// The colon behind the head of a rule.
pub open spec fn rule_colon(s: PS, attributes: bool) -> Step<()> {
    let (ok, s1) = s.punct(":"@);
    if ok {
        (Ok(()), s1)
    } else if attributes {
        s1.fail_expect(seq!["\":\""@])
    } else {
        s1.fail_expect(seq!["\"[\""@, "\":\""@])
    }
}

/// The variable that a definition of a `let` block defines, if one comes next.
#[verifier::opaque]
pub open spec fn let_variable(s: PS) -> Step<Option<VarM>> {
    match var_head(s) {
        (Err(e), s1) => (Err(e), s1),
        (Ok(None), s1) => (Ok(None), s1),
        (Ok(Some(v)), s1) => match suffixed(s1, v) {
            (Err(e), s2) => (Err(e), s2),
            (Ok(v2), s2) => if v2.sort == LSort::Msg || v2.sort == LSort::Nat {
                (Ok(Some(v2)), var_noted(s2, v2))
            } else {
                s2.to(s.at).fail_expect(seq!["identifier"@, "\"%\""@])
            },
        },
    }
}

/// The definitions of a `let` block behind `acc`, and the word `in`.
pub open spec fn definitions(s: PS, acc: Seq<(TermM, TermM)>) -> Step<Seq<(TermM, TermM)>>
    decreases s.rem(),
{
    let w = s.ws();
    if w.at_kw("in"@) {
        definitions_end(w, acc)
    } else {
        match step(w, let_variable(w)) {
            (Err(e), s1) => (Err(e), s1),
            (Ok(None), s1) => definitions_end(s1, acc),
            (Ok(Some(v)), s1) => match s1.need("="@) {
                (Err(e), s2) => (Err(e), s2),
                (Ok(_), s2) => match step(s2, term(s2)) {
                    (Err(e), s3) => (Err(e), s3),
                    (Ok(t), s3) => definitions(s3, acc.push((TermM::Var(v), t))),
                },
            },
        }
    }
}

pub open spec fn definitions_end(s: PS, all: Seq<(TermM, TermM)>) -> Step<Seq<(TermM, TermM)>> {
    if all.len() == 0 {
        s.fail_expect(seq!["identifier"@, "\"%\""@])
    } else {
        match s.need_kw("in"@) {
            (Ok(_), s1) => (Ok(all), s1),
            (Err(e), s1) => (Err(e), s1),
        }
    }
}

/// The `let` block of a rule.
#[verifier::opaque]
pub open spec fn let_block(s: PS) -> Step<Seq<(TermM, TermM)>> {
    match s.need_kw("let"@) {
        (Err(e), s1) => (Err(e), s1),
        (Ok(_), s1) => definitions(s1, Seq::empty()),
    }
}

/// A list of facts in brackets.
#[verifier::opaque]
pub open spec fn bracket_facts(s: PS) -> Step<Seq<FactM>> {
    match s.need("["@) {
        (Err(e), s1) => (Err(e), s1),
        (Ok(_), s1) => fact_list(s1, "]"@),
    }
}

/// The error `e` where a `let` could have stood at `offset` as well.
pub open spec fn or_let(e: ErrorM, offset: int) -> ErrorM {
    if e.offset == offset {
        ErrorM {
            messages: e.messages.insert(
                if e.messages.len() > 0 && e.messages[0] is SysUnExpect {
                    1
                } else {
                    0
                },
                MessageM::Expect("\"let\""@),
            ),
            ..e
        }
    } else {
        e
    }
}

/// The premises of a rule without a `let` block.
#[verifier::opaque]
pub open spec fn bare_premises(s: PS) -> Step<Seq<FactM>> {
    let w = s.ws();
    match bracket_facts(w) {
        (Err(e), s1) => (Err(or_let(e, offset_at(w.src, w.at))), s1),
        (Ok(fs), s1) => (Ok(fs), s1),
    }
}

/// An embedded restriction.
#[verifier::opaque]
pub open spec fn embedded(s: PS) -> Step<FormulaM> {
    match s.need("("@) {
        (Err(e), s1) => (Err(e), s1),
        (Ok(_), s1) => match formula(s1) {
            (Err(e), s2) => (Err(e), s2),
            (Ok(f), s2) => match s2.need(")"@) {
                (Err(e), s3) => (Err(e), s3),
                (Ok(_), s3) => (Ok(f), s3),
            },
        },
    }
}

/// An action or an embedded restriction, behind those that were read.
#[verifier::opaque]
pub open spec fn action(s: PS, acts: Seq<FactM>, rstrs: Seq<FormulaM>) -> Step<
    (Seq<FactM>, Seq<FormulaM>),
> {
    let (restrict, s1) = s.kw("_restrict"@);
    if restrict {
        match embedded(s1) {
            (Err(e), s2) => (Err(e), s2),
            (Ok(f), s2) => (Ok((acts, rstrs.push(f))), s2),
        }
    } else {
        match fact(s1) {
            (Err(e), s2) => (Err(e), s2),
            (Ok(f), s2) => (Ok((acts.push(f), rstrs)), s2),
        }
    }
}

/// The rest of a list of actions.
pub open spec fn more_actions(s: PS, acts: Seq<FactM>, rstrs: Seq<FormulaM>) -> Step<
    (Seq<FactM>, Seq<FormulaM>),
>
    decreases s.rem(),
{
    match step(s, action(s, acts, rstrs)) {
        (Err(e), s1) => (Err(e), s1),
        (Ok((a, r)), s1) => {
            let (more, s2) = s1.punct(","@);
            if more && !s2.at_punct("]->"@) {
                more_actions(s2, a, r)
            } else {
                match s2.need("]->"@) {
                    (Err(e), s3) => (Err(e), s3),
                    (Ok(_), s3) => (Ok((a, r)), s3),
                }
            }
        },
    }
}

/// The actions and restrictions of a rule, behind the opening arrow.
#[verifier::opaque]
pub open spec fn action_list(s: PS) -> Step<(Seq<FactM>, Seq<FormulaM>)> {
    let (close, s1) = s.punct("]->"@);
    if close {
        (Ok((Seq::empty(), Seq::empty())), s1)
    } else {
        more_actions(s1, Seq::empty(), Seq::empty())
    }
}

/// The arrow of a rule.
#[verifier::opaque]
pub open spec fn arrow(s: PS) -> Step<(Seq<FactM>, Seq<FormulaM>)> {
    let (plain, s1) = s.punct("-->"@);
    if plain {
        (Ok((Seq::empty(), Seq::empty())), s1)
    } else {
        match s1.need("--["@) {
            (Err(e), s2) => (Err(e), s2),
            (Ok(_), s2) => action_list(s2),
        }
    }
}

/// The head of a rule behind the word `rule`.
#[verifier::opaque]
pub open spec fn rule_head(s: PS, start: Option<usize>) -> Step<
    (Option<Seq<char>>, Seq<char>, Seq<RuleAttrM>),
> {
    let (m, s1) = modulo(s);
    match rule_name(s1, start) {
        (Err(e), s2) => (Err(e), s2),
        (Ok(name), s2) => match rule_attrs(s2) {
            (Err(e), s3) => (Err(e), s3),
            (Ok(attrs), s3) => match rule_colon(s3, s2.at_punct("["@)) {
                (Err(e), s4) => (Err(e), s4),
                (Ok(_), s4) => (Ok((m, name, attrs)), s4),
            },
        },
    }
}

/// The definitions and the premises of a rule.
#[verifier::opaque]
pub open spec fn rule_premises(s: PS) -> Step<(Seq<(TermM, TermM)>, Seq<FactM>)> {
    if s.at_kw("let"@) {
        match let_block(s) {
            (Err(e), s1) => (Err(e), s1),
            (Ok(bs), s1) => match bracket_facts(s1) {
                (Err(e), s2) => (Err(e), s2),
                (Ok(ps), s2) => (Ok((bs, ps)), s2),
            },
        }
    } else {
        match bare_premises(s) {
            (Err(e), s1) => (Err(e), s1),
            (Ok(ps), s1) => (Ok((Seq::empty(), ps)), s1),
        }
    }
}

/// A rule behind the word `rule`, with its definitions put in.
#[verifier::opaque]
pub open spec fn rule_body(s: PS, start: Option<usize>) -> Step<RuleM> {
    match rule_head(s, start) {
        (Err(e), s1) => (Err(e), s1),
        (Ok((m, name, attributes)), s1) => match rule_premises(s1) {
            (Err(e), s2) => (Err(e), s2),
            (Ok((bs, ps)), s2) => match arrow(s2) {
                (Err(e), s3) => (Err(e), s3),
                (Ok((acts, rstrs)), s3) => match bracket_facts(s3) {
                    (Err(e), s4) => (Err(e), s4),
                    (Ok(cs), s4) => (
                        Ok(
                            RuleM {
                                name,
                                modulo: m,
                                attributes,
                                premises: facts_under(ps, bs),
                                actions: facts_under(acts, bs),
                                conclusions: facts_under(cs, bs),
                                embedded_restrictions: formulas_under(rstrs, bs),
                                variants: Seq::empty(),
                                left_right: None,
                            },
                        ),
                        s4,
                    ),
                },
            },
        },
    }
}

/// A variant of a rule.
#[verifier::opaque]
pub open spec fn rule_variant(s: PS) -> Step<RuleM> {
    match s.need_kw("rule"@) {
        (Err(e), s1) => (Err(e), s1),
        (Ok(_), s1) => rule_body(s1, None),
    }
}

/// The variants behind `acc`.
pub open spec fn more_variants(s: PS, acc: Seq<RuleM>) -> Step<Seq<RuleM>>
    decreases s.rem(),
{
    match step(s, rule_variant(s)) {
        (Err(e), s1) => (Err(e), s1),
        (Ok(r), s1) => {
            let (more, s2) = s1.punct(","@);
            if more {
                more_variants(s2, acc.push(r))
            } else {
                (Ok(acc.push(r)), s2)
            }
        },
    }
}

/// The variants of a rule.
#[verifier::opaque]
pub open spec fn rule_variants(s: PS) -> Step<Seq<RuleM>> {
    let (word, s1) = s.kw("variants"@);
    if word {
        more_variants(s1, Seq::empty())
    } else if s.place.is_diff {
        (Ok(Seq::empty()), s1)
    } else {
        (Ok(Seq::empty()), item_ended(s1, ItemTail::Variants))
    }
}

/// A rule without the two sides of a diff theory.
#[verifier::opaque]
pub open spec fn one_sided_rule(s: PS) -> Step<RuleM> {
    let w = s.ws();
    match w.need_kw("rule"@) {
        (Err(e), s1) => (Err(e), s1),
        (Ok(_), s1) => match rule_body(s1, Some(w.offset())) {
            (Err(e), s2) => (Err(e), s2),
            (Ok(r), s2) => match rule_variants(s2) {
                (Err(e), s3) => (Err(e), s3),
                (Ok(vs), s3) => (Ok(RuleM { variants: vs, ..r }), s3),
            },
        },
    }
}

/// The rule `r` with the sides it was written with.
#[verifier::opaque]
pub open spec fn with_sides(r: RuleM, left: RuleM, right: RuleM) -> RuleM {
    RuleM {
        left_right: Some(RuleSidesM { left: Box::new(left), right: Box::new(right) }),
        ..r
    }
}

/// A rule.
pub open spec fn rule(s: PS) -> Step<RuleM>
    decreases s.rem(),
{
    match step(s, one_sided_rule(s)) {
        (Err(e), s1) => (Err(e), s1),
        (Ok(r), s1) => {
            let (left, s2) = s1.kw("left"@);
            if left {
                match step(s2, rule(s2)) {
                    (Err(e), s3) => (Err(e), s3),
                    (Ok(a), s3) => match s3.need_kw("right"@) {
                        (Err(e), s4) => (Err(e), s4),
                        (Ok(_), s4) => match rule(s4) {
                            (Err(e), s5) => (Err(e), s5),
                            (Ok(b), s5) => (Ok(with_sides(r, a, b)), s5),
                        },
                    },
                }
            } else {
                (Ok(r), s2)
            }
        },
    }
}

/// The name of the restriction that the embedded restriction `i` of a rule stands for.
pub open spec fn restr_name(rule: Seq<char>, i: int) -> Seq<char> {
    "Restr_"@ + rule + "_"@ + decimal(i as nat)
}

/// The first of the restrictions `i` to `n` of a rule whose name is taken.
pub open spec fn first_taken(names: Seq<Seq<char>>, rule: Seq<char>, i: int, n: int) -> Option<int>
    decreases n - i + 1,
{
    if i > n {
        None
    } else if names.contains(restr_name(rule, i)) {
        Some(i)
    } else {
        first_taken(names, rule, i + 1, n)
    }
}

/// The names with those of the first `n` embedded restrictions behind them.
pub open spec fn with_restr_names(names: Seq<Seq<char>>, rule: Seq<char>, n: int) -> Seq<Seq<char>>
    decreases n,
{
    if n <= 0 {
        names
    } else {
        with_restr_names(names, rule, n - 1).push(restr_name(rule, n))
    }
}

/// The index of the first rule of that name.
pub open spec fn rule_index(rules: Seq<RuleM>, name: Seq<char>, i: int) -> Option<int>
    decreases rules.len() - i,
{
    if i < 0 || i >= rules.len() {
        None
    } else if rules[i].name == name {
        Some(i)
    } else {
        rule_index(rules, name, i + 1)
    }
}

/// The state in which the rule is known.
pub open spec fn knowing_rule(s: PS, r: RuleM) -> PS {
    PS {
        st: StateM {
            seen: SeenM {
                rules: match rule_index(s.st.seen.rules, r.name, 0) {
                    Some(_) => s.st.seen.rules,
                    None => s.st.seen.rules.push(r),
                },
                restriction_names: with_restr_names(
                    s.st.seen.restriction_names,
                    r.name,
                    r.embedded_restrictions.len() as int,
                ),
                ..s.st.seen
            },
            ..s.st
        },
        ..s
    }
}

/// The rule is new, or the same as the rule of its name up to the theory it is
/// written modulo; and so are the restrictions in it new.
#[verifier::opaque]
pub open spec fn rule_guard(s: PS, r: RuleM) -> Step<()> {
    if s.place.is_diff {
        (Ok(()), s)
    } else {
        let n = r.embedded_restrictions.len() as int;
        match first_taken(s.st.seen.restriction_names, r.name, 1, n) {
            Some(i) => fail_behind_item(s, "duplicate restriction: "@ + restr_name(r.name, i)),
            None => match rule_index(s.st.seen.rules, r.name, 0) {
                Some(k) => if (RuleM { modulo: r.modulo, ..s.st.seen.rules[k] }) != r {
                    fail_behind_item(s, "duplicate rule: "@ + r.name)
                } else {
                    (Ok(()), knowing_rule(s, r))
                },
                None => (Ok(()), knowing_rule(s, r)),
            },
        }
    }
}

fn restriction_name(rule: &str, i: usize) -> (r: String)
    ensures
        r@ == restr_name(rule@, i as int),
{
    let mut r = "Restr_".to_string();
    r.push_str(rule);
    r.push_str("_");
    r.push_str(&to_decimal(i as u64));
    r
}

fn find_rule(rules: &Vec<Rule>, name: &str) -> (r: Option<usize>)
    ensures
        crate::model::index_m(r) == rule_index(rules.deep_view(), name@, 0),
        r matches Some(k) ==> k < rules@.len(),
{
    let mut i: usize = 0;
    while i < rules.len()
        invariant
            i <= rules@.len(),
            rule_index(rules.deep_view(), name@, i as int) == rule_index(
                rules.deep_view(),
                name@,
                0,
            ),
        decreases rules@.len() - i,
    {
        assert(rules.deep_view()[i as int] == rules@[i as int].deep_view());
        if same(&rules[i].name, name) {
            return Some(i);
        }
        i = i + 1;
    }
    None
}

impl Parser {
    pub fn try_modulo(&mut self) -> (r: Option<String>)
        requires
            old(self).wf(),
        ensures
            final(self).wf(),
            (r.deep_view(), final(self)@) == modulo(old(self)@),
            old(self)@.past(final(self)@),
    {
        proof {
            reveal(modulo);
        }
        let save = self.save();
        if !self.try_punct("(") {
            return None;
        }
        if !self.try_kw("modulo") {
            self.restore(save);
            return None;
        }
        match self.ident() {
            Ok(id) => {
                if self.try_punct(")") {
                    Some(id)
                } else {
                    self.restore(save);
                    None
                }
            },
            Err(_) => {
                self.restore(save);
                None
            },
        }
    }

    fn rule_name_failure(&mut self, start: Option<usize>) -> (r: Result<String, ParseError>)
        requires
            old(self).wf(),
        ensures
            final(self).wf(),
            (outcome(r), final(self)@) == no_rule_name(old(self)@, start),
            old(self)@.past(final(self)@),
    {
        proof {
            reveal(no_rule_name);
        }
        match self.err_reserved_word() {
            Some(e) => {
                return Err(e);
            },
            None => {},
        }
        let off = self.offset();
        let mut v = crate::model::one_item(Message::SysUnExpect(self.unexpected_token()));
        put(&mut v, Message::Expect("\"(\"".to_string()));
        put(&mut v, Message::Expect("identifier".to_string()));
        assert(v.deep_view() =~= seq![
            MessageM::SysUnExpect(self@.token()),
            MessageM::Expect("\"(\""@),
            MessageM::Expect("identifier"@),
        ]);
        let ghost found = v.deep_view();
        let close = match start {
            Some(n) => off >= 4 && off - 4 == n,
            None => false,
        };
        if close {
            put(&mut v, Message::Expect("letter".to_string()));
            put(&mut v, Message::Expect("\"{*\"".to_string()));
            assert(v.deep_view() =~= found + seq![
                MessageM::Expect("letter"@),
                MessageM::Expect("\"{*\""@),
            ]);
        }
        Err(self.error_here(v))
    }

    fn rule_name_ident(&mut self, start: Option<usize>) -> (r: Result<String, ParseError>)
        requires
            old(self).wf(),
        ensures
            final(self).wf(),
            (outcome(r), final(self)@) == rule_name(old(self)@, start),
            old(self)@.past(final(self)@),
    {
        match self.identifier() {
            Some(id) => Ok(id),
            None => self.rule_name_failure(start),
        }
    }

    fn require_rule_colon(&mut self, attributes: bool) -> (r: Result<(), ParseError>)
        requires
            old(self).wf(),
        ensures
            final(self).wf(),
            (outcome(r), final(self)@) == rule_colon(old(self)@, attributes),
            old(self)@.past(final(self)@),
    {
        if self.try_punct(":") {
            return Ok(());
        }
        if attributes {
            Err(self.err_expect(labels1("\":\"")))
        } else {
            Err(self.err_expect(labels2("\"[\"", "\":\"")))
        }
    }

    fn let_binder(&mut self) -> (r: Result<Option<VarSpec>, ParseError>)
        requires
            old(self).wf(),
        ensures
            final(self).wf(),
            (outcome(r), final(self)@) == let_variable(old(self)@),
            old(self)@.fwd(final(self)@),
    {
        proof {
            reveal(let_variable);
        }
        let start = self.save();
        match self.try_var_spec()? {
            Some(v) => {
                let v = self.attach_sort_suffix(v)?;
                if v.sort != LSort::Msg && v.sort != LSort::Nat {
                    self.restore(start);
                    return Err(self.err_expect(labels2("identifier", "\"%\"")));
                }
                self.note_var_dot_hangover(&v);
                Ok(Some(v))
            },
            None => Ok(None),
        }
    }

    fn finish_definitions(&mut self, bs: Vec<(Term, Term)>) -> (r: Result<
        Vec<(Term, Term)>,
        ParseError,
    >)
        requires
            old(self).wf(),
        ensures
            final(self).wf(),
            (outcome(r), final(self)@) == definitions_end(old(self)@, bs.deep_view()),
            old(self)@.past(final(self)@),
    {
        if bs.len() == 0 {
            return Err(self.err_expect(labels2("identifier", "\"%\"")));
        }
        self.require_kw("in")?;
        Ok(bs)
    }

    #[verifier::spinoff_prover]
    fn let_bindings(&mut self) -> (r: Result<Vec<(Term, Term)>, ParseError>)
        requires
            old(self).wf(),
        ensures
            final(self).wf(),
            (outcome(r), final(self)@) == let_block(old(self)@),
            old(self)@.fwd(final(self)@),
    {
        proof {
            reveal(let_block);
        }
        self.require_kw("let")?;
        let mut bs = no_items::<(Term, Term)>();
        loop
            invariant
                self.wf(),
                old(self)@.fwd(self@),
                definitions(self@, bs.deep_view()) == let_block(old(self)@),
            decreases self@.rem(),
        {
            self.skip_ws();
            if self.at_keyword("in") {
                return self.finish_definitions(bs);
            }
            match self.let_binder()? {
                Some(v) => {
                    self.require_punct("=")?;
                    let rhs = self.term()?;
                    put(&mut bs, (Term::Var(v), rhs));
                },
                None => {
                    return self.finish_definitions(bs);
                },
            }
        }
    }

    /// A list of facts in brackets.
    pub fn fact_list(&mut self) -> (r: Result<Vec<Fact>, ParseError>)
        requires
            old(self).wf(),
        ensures
            final(self).wf(),
            (outcome(r), final(self)@) == bracket_facts(old(self)@),
            old(self)@.fwd(final(self)@),
    {
        proof {
            reveal(bracket_facts);
        }
        self.require_punct("[")?;
        self.sep_end_facts("]")
    }

    fn premises_after_absent_let(&mut self) -> (r: Result<Vec<Fact>, ParseError>)
        requires
            old(self).wf(),
        ensures
            final(self).wf(),
            (outcome(r), final(self)@) == bare_premises(old(self)@),
            old(self)@.fwd(final(self)@),
    {
        proof {
            reveal(bare_premises);
        }
        self.skip_ws();
        let off = self.offset();
        match self.fact_list() {
            Ok(fs) => Ok(fs),
            Err(e) => {
                let mut e = e;
                if e.offset == off {
                    let mut at: usize = 0;
                    if e.messages.len() > 0 {
                        assert(e.messages.deep_view()[0] == e.messages@[0].deep_view());
                        match &e.messages[0] {
                            Message::SysUnExpect(_) => {
                                at = 1;
                            },
                            _ => {},
                        }
                    }
                    put_at(&mut e.messages, at, Message::Expect("\"let\"".to_string()));
                }
                Err(e)
            },
        }
    }

    fn restrict_formula(&mut self) -> (r: Result<Formula, ParseError>)
        requires
            old(self).wf(),
        ensures
            final(self).wf(),
            (outcome(r), final(self)@) == embedded(old(self)@),
            old(self)@.fwd(final(self)@),
    {
        proof {
            reveal(embedded);
        }
        self.require_punct("(")?;
        let f = self.formula()?;
        self.require_punct(")")?;
        Ok(f)
    }

    fn fact_or_restr(&mut self, acts: Vec<Fact>, rstrs: Vec<Formula>) -> (r: Result<
        (Vec<Fact>, Vec<Formula>),
        ParseError,
    >)
        requires
            old(self).wf(),
        ensures
            final(self).wf(),
            (outcome(r), final(self)@) == action(
                old(self)@,
                acts.deep_view(),
                rstrs.deep_view(),
            ),
            old(self)@.fwd(final(self)@),
    {
        proof {
            reveal(action);
        }
        let mut acts = acts;
        let mut rstrs = rstrs;
        if self.try_kw("_restrict") {
            let f = self.restrict_formula()?;
            put(&mut rstrs, f);
        } else {
            let f = self.fact()?;
            put(&mut acts, f);
        }
        Ok((acts, rstrs))
    }

    /// Actions and embedded restrictions up to the closing arrow.
    #[verifier::spinoff_prover]
    pub fn parse_action_restr_list(&mut self) -> (r: Result<
        (Vec<Fact>, Vec<Formula>),
        ParseError,
    >)
        requires
            old(self).wf(),
        ensures
            final(self).wf(),
            (outcome(r), final(self)@) == action_list(old(self)@),
            old(self)@.fwd(final(self)@),
    {
        proof {
            reveal(action_list);
        }
        let mut acts = no_items::<Fact>();
        let mut rstrs = no_items::<Formula>();
        if self.try_punct("]->") {
            return Ok((acts, rstrs));
        }
        loop
            invariant
                self.wf(),
                old(self)@.fwd(self@),
                more_actions(self@, acts.deep_view(), rstrs.deep_view()) == action_list(
                    old(self)@,
                ),
            decreases self@.rem(),
        {
            let (a, r) = self.fact_or_restr(acts, rstrs)?;
            acts = a;
            rstrs = r;
            let more = self.try_punct(",");
            if !more || self.peek_punct("]->") {
                self.require_punct("]->")?;
                return Ok((acts, rstrs));
            }
        }
    }

    pub fn parse_actions_and_restrictions(&mut self) -> (r: Result<
        (Vec<Fact>, Vec<Formula>),
        ParseError,
    >)
        requires
            old(self).wf(),
        ensures
            final(self).wf(),
            (outcome(r), final(self)@) == arrow(old(self)@),
            old(self)@.fwd(final(self)@),
    {
        proof {
            reveal(arrow);
        }
        if self.try_punct("-->") {
            return Ok((no_items::<Fact>(), no_items::<Formula>()));
        }
        self.require_punct("--[")?;
        self.parse_action_restr_list()
    }

    #[verifier::spinoff_prover]
    fn rule_header(&mut self, start: Option<usize>) -> (r: Result<
        (Option<String>, String, Vec<crate::ast::RuleAttr>),
        ParseError,
    >)
        requires
            old(self).wf(),
        ensures
            final(self).wf(),
            (outcome(r), final(self)@) == rule_head(old(self)@, start),
            old(self)@.past(final(self)@),
    {
        proof {
            reveal(rule_head);
        }
        let m = self.try_modulo();
        let name = self.rule_name_ident(start)?;
        let had = self.peek_punct("[");
        let attrs = self.rule_attributes()?;
        self.require_rule_colon(had)?;
        Ok((m, name, attrs))
    }

    fn rule_left_side(&mut self) -> (r: Result<(Vec<(Term, Term)>, Vec<Fact>), ParseError>)
        requires
            old(self).wf(),
        ensures
            final(self).wf(),
            (outcome(r), final(self)@) == rule_premises(old(self)@),
            old(self)@.fwd(final(self)@),
    {
        proof {
            reveal(rule_premises);
        }
        if self.at_keyword("let") {
            let bs = self.let_bindings()?;
            let ps = self.fact_list()?;
            Ok((bs, ps))
        } else {
            let ps = self.premises_after_absent_let()?;
            Ok((no_items::<(Term, Term)>(), ps))
        }
    }

    /// A rule behind the word `rule`.
    #[verifier::spinoff_prover]
    pub fn rule_after_kw(&mut self, start: Option<usize>) -> (r: Result<Rule, ParseError>)
        requires
            old(self).wf(),
        ensures
            final(self).wf(),
            (outcome(r), final(self)@) == rule_body(old(self)@, start),
            old(self)@.fwd(final(self)@),
    {
        proof {
            reveal(rule_body);
        }
        let (m, name, attributes) = self.rule_header(start)?;
        let (bs, premises) = self.rule_left_side()?;
        let (actions, restrictions) = self.parse_actions_and_restrictions()?;
        let conclusions = self.fact_list()?;
        Ok(
            Rule {
                name,
                modulo: m,
                attributes,
                premises: let_facts(premises, &bs),
                actions: let_facts(actions, &bs),
                conclusions: let_facts(conclusions, &bs),
                embedded_restrictions: let_formulas(restrictions, &bs),
                variants: no_items::<Rule>(),
                left_right: None,
            },
        )
    }

    /// A variant of a rule.
    pub fn parse_rule_ac(&mut self) -> (r: Result<Rule, ParseError>)
        requires
            old(self).wf(),
        ensures
            final(self).wf(),
            (outcome(r), final(self)@) == rule_variant(old(self)@),
            old(self)@.fwd(final(self)@),
            r is Ok ==> old(self)@.at < final(self)@.at,
    {
        proof {
            reveal(rule_variant);
        }
        self.require_kw("rule")?;
        self.rule_after_kw(None)
    }

    fn variant_list(&mut self) -> (r: Result<Vec<Rule>, ParseError>)
        requires
            old(self).wf(),
        ensures
            final(self).wf(),
            (outcome(r), final(self)@) == rule_variants(old(self)@),
            old(self)@.fwd(final(self)@),
    {
        proof {
            reveal(rule_variants);
        }
        let mut vs = no_items::<Rule>();
        if !self.try_kw("variants") {
            if !self.place.is_diff {
                self.set_item_hangover(ItemTail::Variants);
            }
            return Ok(vs);
        }
        loop
            invariant
                self.wf(),
                old(self)@.fwd(self@),
                more_variants(self@, vs.deep_view()) == rule_variants(old(self)@),
            decreases self@.rem(),
        {
            let v = self.parse_rule_ac()?;
            put(&mut vs, v);
            if !self.try_punct(",") {
                return Ok(vs);
            }
        }
    }

    fn rule_and_variants(&mut self) -> (r: Result<Rule, ParseError>)
        requires
            old(self).wf(),
        ensures
            final(self).wf(),
            (outcome(r), final(self)@) == one_sided_rule(old(self)@),
            old(self)@.fwd(final(self)@),
            r is Ok ==> old(self)@.at < final(self)@.at,
    {
        proof {
            reveal(one_sided_rule);
        }
        self.skip_ws();
        let start = self.offset();
        self.require_kw("rule")?;
        let r = self.rule_after_kw(Some(start))?;
        let vs = self.variant_list()?;
        Ok(Rule { variants: vs, ..r })
    }

    /// A rule.
    #[verifier::spinoff_prover]
    pub fn parse_rule(&mut self) -> (r: Result<Rule, ParseError>)
        requires
            old(self).wf(),
        ensures
            final(self).wf(),
            (outcome(r), final(self)@) == rule(old(self)@),
            old(self)@.fwd(final(self)@),
            r is Ok ==> old(self)@.at < final(self)@.at,
        decreases old(self)@.rem(),
    {
        let r = self.rule_and_variants()?;
        if !self.try_kw("left") {
            return Ok(r);
        }
        let a = self.parse_rule()?;
        self.require_kw("right")?;
        let b = self.parse_rule()?;
        Ok(put_sides(r, a, b))
    }

    fn taken_restriction(&self, rule: &str, n: usize) -> (r: Option<usize>)
        ensures
            crate::model::index_m(r) == first_taken(
                self@.st.seen.restriction_names,
                rule@,
                1,
                n as int,
            ),
    {
        let mut i: usize = 1;
        while i <= n
            invariant
                1 <= i,
                first_taken(self@.st.seen.restriction_names, rule@, i as int, n as int)
                    == first_taken(self@.st.seen.restriction_names, rule@, 1, n as int),
            decreases n - i + 1,
        {
            if has_text(&self.st.seen.restriction_names, &restriction_name(rule, i)) {
                return Some(i);
            }
            if i == n {
                assert(first_taken(self@.st.seen.restriction_names, rule@, i + 1, n as int) is None);
                return None;
            }
            i = i + 1;
        }
        None
    }

    /// Admits the rule if its name is free, or taken by the same rule.
    #[verifier::spinoff_prover]
    pub fn guard_duplicate_rule(&mut self, r: &Rule) -> (res: Result<(), ParseError>)
        requires
            old(self).wf(),
        ensures
            final(self).wf(),
            (outcome(res), final(self)@) == rule_guard(old(self)@, r.deep_view()),
            old(self)@.within(final(self)@),
            res is Ok ==> follows(old(self)@, ItemM::Rule(r.deep_view()), final(self)@),
    {
        proof {
            reveal(rule_guard);
            reveal(fits);
            reveal(noted);
        }
        if self.place.is_diff {
            return Ok(());
        }
        let n: usize = r.embedded_restrictions.len();
        match self.taken_restriction(&r.name, n) {
            Some(i) => {
                let mut m = "duplicate restriction: ".to_string();
                m.push_str(&restriction_name(&r.name, i));
                return Err(self.item_fail(&m));
            },
            None => {},
        }
        match find_rule(&self.st.seen.rules, &r.name) {
            Some(k) => {
                let mut first = copy_rule(&self.st.seen.rules[k]);
                first.modulo = copy_text_opt(&r.modulo);
                if !same_rule(&first, r) {
                    let mut m = "duplicate rule: ".to_string();
                    m.push_str(&r.name);
                    return Err(self.item_fail(&m));
                }
            },
            None => {
                put(&mut self.st.seen.rules, copy_rule(r));
            },
        }
        proof {
            lemma_first_taken(
                old(self)@.st.seen.restriction_names,
                r.name@,
                1,
                n as int,
            );
        }
        let ghost mid = self@;
        let mut i: usize = 0;
        while i < n
            invariant
                i <= n,
                self.wf(),
                mid.at == old(self)@.at,
                n == r.embedded_restrictions@.len(),
                mid == (PS {
                    st: StateM {
                        seen: SeenM {
                            rules: knowing_rule(old(self)@, r.deep_view()).st.seen.rules,
                            ..old(self)@.st.seen
                        },
                        ..old(self)@.st
                    },
                    ..old(self)@
                }),
                self@ == (PS {
                    st: StateM {
                        seen: SeenM {
                            restriction_names: with_restr_names(
                                old(self)@.st.seen.restriction_names,
                                r.name@,
                                i as int,
                            ),
                            ..mid.st.seen
                        },
                        ..mid.st
                    },
                    ..mid
                }),
            decreases n - i,
        {
            i = i + 1;
            put(&mut self.st.seen.restriction_names, restriction_name(&r.name, i));
        }
        assert(self@ == knowing_rule(old(self)@, r.deep_view()));
        Ok(())
    }
}

fn put_sides(r: Rule, a: Rule, b: Rule) -> (res: Rule)
    ensures
        res.deep_view() == with_sides(r.deep_view(), a.deep_view(), b.deep_view()),
{
    proof {
        reveal(with_sides);
    }
    Rule { left_right: Some(RuleSides { left: Box::new(a), right: Box::new(b) }), ..r }
}

} // verus!
