//! Copies and comparisons of syntax trees.
//!
//! A copy has the model of what it was made from; two trees are the same when
//! their models are equal.

use crate::ast::{
    app_model, pair_model, rule_model, Atom, BinOp, Condition, Fact, FactAnnotation, Formula,
    LemmaAttr, Process, ProcessComb, Rule, RuleAttr, RuleSides, SapicAction, Term, VarSpec,
};
use crate::model::{no_items, put};
use crate::text::same;
use vstd::prelude::*;

verus! {

broadcast use {app_model, pair_model, rule_model};

pub fn copy_text_opt(o: &Option<String>) -> (r: Option<String>)
    ensures
        r.deep_view() == o.deep_view(),
{
    match o {
        Some(s) => Some(s.clone()),
        None => None,
    }
}

pub fn copy_texts(v: &Vec<String>) -> (r: Vec<String>)
    ensures
        r.deep_view() == v.deep_view(),
{
    let mut r = no_items::<String>();
    let mut i: usize = 0;
    while i < v.len()
        invariant
            i <= v@.len(),
            r.deep_view() == v.deep_view().take(i as int),
        decreases v@.len() - i,
    {
        put(&mut r, v[i].clone());
        i = i + 1;
        assert(r.deep_view() =~= v.deep_view().take(i as int));
    }
    assert(v.deep_view().take(v@.len() as int) =~= v.deep_view());
    r
}

pub fn copy_var(v: &VarSpec) -> (r: VarSpec)
    ensures
        r.deep_view() == v.deep_view(),
{
    VarSpec { name: v.name.clone(), idx: v.idx, sort: v.sort, typ: copy_text_opt(&v.typ) }
}

pub fn copy_vars(v: &Vec<VarSpec>) -> (r: Vec<VarSpec>)
    ensures
        r.deep_view() == v.deep_view(),
{
    let mut r = no_items::<VarSpec>();
    let mut i: usize = 0;
    while i < v.len()
        invariant
            i <= v@.len(),
            r.deep_view() == v.deep_view().take(i as int),
        decreases v@.len() - i,
    {
        put(&mut r, copy_var(&v[i]));
        i = i + 1;
        assert(r.deep_view() =~= v.deep_view().take(i as int));
    }
    assert(v.deep_view().take(v@.len() as int) =~= v.deep_view());
    r
}

pub fn copy_op(o: &BinOp) -> (r: BinOp)
    ensures
        r.deep_view() == o.deep_view(),
{
    match o {
        BinOp::Exp => BinOp::Exp,
        BinOp::Mult => BinOp::Mult,
        BinOp::Xor => BinOp::Xor,
        BinOp::Union => BinOp::Union,
        BinOp::NatPlus => BinOp::NatPlus,
        BinOp::AcFct(f) => BinOp::AcFct(f.clone()),
    }
}

pub fn copy_term(t: &Term) -> (r: Term)
    ensures
        r.deep_view() == t.deep_view(),
    decreases t,
{
    match t {
        Term::Var(v) => Term::Var(copy_var(v)),
        Term::PubLit(s) => Term::PubLit(s.clone()),
        Term::FreshLit(s) => Term::FreshLit(s.clone()),
        Term::NatLit(s) => Term::NatLit(s.clone()),
        Term::Number(n) => Term::Number(*n),
        Term::NumberOne => Term::NumberOne,
        Term::NatOne => Term::NatOne,
        Term::DhNeutral => Term::DhNeutral,
        Term::App(f, args) => Term::App(f.clone(), copy_terms(args)),
        Term::AlgApp(f, a, b) => Term::AlgApp(
            f.clone(),
            Box::new(copy_term(a)),
            Box::new(copy_term(b)),
        ),
        Term::Pair(args) => Term::Pair(copy_terms(args)),
        Term::Diff(a, b) => Term::Diff(Box::new(copy_term(a)), Box::new(copy_term(b))),
        Term::BinOp(o, a, b) => Term::BinOp(
            copy_op(o),
            Box::new(copy_term(a)),
            Box::new(copy_term(b)),
        ),
        Term::PatMatch(a) => Term::PatMatch(Box::new(copy_term(a))),
    }
}

pub fn copy_terms(v: &Vec<Term>) -> (r: Vec<Term>)
    ensures
        r.deep_view() == v.deep_view(),
    decreases v,
{
    let mut r = no_items::<Term>();
    let mut i: usize = 0;
    while i < v.len()
        invariant
            i <= v@.len(),
            r.deep_view() == v.deep_view().take(i as int),
        decreases v@.len() - i,
    {
        put(&mut r, copy_term(&v[i]));
        i = i + 1;
        assert(r.deep_view() =~= v.deep_view().take(i as int));
    }
    assert(v.deep_view().take(v@.len() as int) =~= v.deep_view());
    r
}

pub fn copy_annotations(v: &Vec<FactAnnotation>) -> (r: Vec<FactAnnotation>)
    ensures
        r.deep_view() == v.deep_view(),
{
    let mut r = no_items::<FactAnnotation>();
    let mut i: usize = 0;
    while i < v.len()
        invariant
            i <= v@.len(),
            r.deep_view() == v.deep_view().take(i as int),
        decreases v@.len() - i,
    {
        put(&mut r, v[i]);
        i = i + 1;
        assert(r.deep_view() =~= v.deep_view().take(i as int));
    }
    assert(v.deep_view().take(v@.len() as int) =~= v.deep_view());
    r
}

pub fn copy_fact(f: &Fact) -> (r: Fact)
    ensures
        r.deep_view() == f.deep_view(),
{
    Fact {
        persistent: f.persistent,
        name: f.name.clone(),
        args: copy_terms(&f.args),
        annotations: copy_annotations(&f.annotations),
    }
}

pub fn copy_facts(v: &Vec<Fact>) -> (r: Vec<Fact>)
    ensures
        r.deep_view() == v.deep_view(),
{
    let mut r = no_items::<Fact>();
    let mut i: usize = 0;
    while i < v.len()
        invariant
            i <= v@.len(),
            r.deep_view() == v.deep_view().take(i as int),
        decreases v@.len() - i,
    {
        put(&mut r, copy_fact(&v[i]));
        i = i + 1;
        assert(r.deep_view() =~= v.deep_view().take(i as int));
    }
    assert(v.deep_view().take(v@.len() as int) =~= v.deep_view());
    r
}

pub fn copy_atom(a: &Atom) -> (r: Atom)
    ensures
        r.deep_view() == a.deep_view(),
{
    match a {
        Atom::Eq(x, y) => Atom::Eq(copy_term(x), copy_term(y)),
        Atom::Less(x, y) => Atom::Less(copy_term(x), copy_term(y)),
        Atom::LessMset(x, y) => Atom::LessMset(copy_term(x), copy_term(y)),
        Atom::Subterm(x, y) => Atom::Subterm(copy_term(x), copy_term(y)),
        Atom::Action(f, t) => Atom::Action(copy_fact(f), copy_term(t)),
        Atom::Last(t) => Atom::Last(copy_term(t)),
        Atom::Pred(f) => Atom::Pred(copy_fact(f)),
    }
}

pub fn copy_formula(f: &Formula) -> (r: Formula)
    ensures
        r.deep_view() == f.deep_view(),
    decreases f,
{
    match f {
        Formula::False => Formula::False,
        Formula::True => Formula::True,
        Formula::Atom(a) => Formula::Atom(copy_atom(a)),
        Formula::Not(a) => Formula::Not(Box::new(copy_formula(a))),
        Formula::And(a, b) => Formula::And(Box::new(copy_formula(a)), Box::new(copy_formula(b))),
        Formula::Or(a, b) => Formula::Or(Box::new(copy_formula(a)), Box::new(copy_formula(b))),
        Formula::Implies(a, b) => Formula::Implies(
            Box::new(copy_formula(a)),
            Box::new(copy_formula(b)),
        ),
        Formula::Iff(a, b) => Formula::Iff(Box::new(copy_formula(a)), Box::new(copy_formula(b))),
        Formula::Forall(vs, a) => Formula::Forall(copy_vars(vs), Box::new(copy_formula(a))),
        Formula::Exists(vs, a) => Formula::Exists(copy_vars(vs), Box::new(copy_formula(a))),
    }
}

pub fn copy_formulas(v: &Vec<Formula>) -> (r: Vec<Formula>)
    ensures
        r.deep_view() == v.deep_view(),
{
    let mut r = no_items::<Formula>();
    let mut i: usize = 0;
    while i < v.len()
        invariant
            i <= v@.len(),
            r.deep_view() == v.deep_view().take(i as int),
        decreases v@.len() - i,
    {
        put(&mut r, copy_formula(&v[i]));
        i = i + 1;
        assert(r.deep_view() =~= v.deep_view().take(i as int));
    }
    assert(v.deep_view().take(v@.len() as int) =~= v.deep_view());
    r
}

pub fn copy_rule_attrs(v: &Vec<RuleAttr>) -> (r: Vec<RuleAttr>)
    ensures
        r.deep_view() == v.deep_view(),
{
    let mut r = no_items::<RuleAttr>();
    let mut i: usize = 0;
    while i < v.len()
        invariant
            i <= v@.len(),
            r.deep_view() == v.deep_view().take(i as int),
        decreases v@.len() - i,
    {
        let a = match &v[i] {
            RuleAttr::Color(c) => RuleAttr::Color(c.clone()),
            RuleAttr::NoDerivCheck => RuleAttr::NoDerivCheck,
            RuleAttr::Role(c) => RuleAttr::Role(c.clone()),
            RuleAttr::IsSapicRule => RuleAttr::IsSapicRule,
            RuleAttr::External(k, x) => RuleAttr::External(k.clone(), copy_text_opt(x)),
        };
        put(&mut r, a);
        i = i + 1;
        assert(r.deep_view() =~= v.deep_view().take(i as int));
    }
    assert(v.deep_view().take(v@.len() as int) =~= v.deep_view());
    r
}

pub fn copy_rule(x: &Rule) -> (r: Rule)
    ensures
        r.deep_view() == x.deep_view(),
    decreases x,
{
    let left_right = match &x.left_right {
        Some(s) => {
            let left = copy_rule(&s.left);
            let right = copy_rule(&s.right);
            Some(RuleSides { left: Box::new(left), right: Box::new(right) })
        },
        None => None,
    };
    let mut variants = no_items::<Rule>();
    let mut i: usize = 0;
    while i < x.variants.len()
        invariant
            i <= x.variants@.len(),
            variants.deep_view() == x.variants.deep_view().take(i as int),
        decreases x.variants@.len() - i,
    {
        put(&mut variants, copy_rule(&x.variants[i]));
        i = i + 1;
        assert(variants.deep_view() =~= x.variants.deep_view().take(i as int));
    }
    assert(x.variants.deep_view().take(x.variants@.len() as int) =~= x.variants.deep_view());
    Rule {
        name: x.name.clone(),
        modulo: copy_text_opt(&x.modulo),
        attributes: copy_rule_attrs(&x.attributes),
        premises: copy_facts(&x.premises),
        actions: copy_facts(&x.actions),
        conclusions: copy_facts(&x.conclusions),
        embedded_restrictions: copy_formulas(&x.embedded_restrictions),
        variants,
        left_right,
    }
}

pub fn copy_lemma_attrs(v: &Vec<LemmaAttr>) -> (r: Vec<LemmaAttr>)
    ensures
        r.deep_view() == v.deep_view(),
{
    let mut r = no_items::<LemmaAttr>();
    let mut i: usize = 0;
    while i < v.len()
        invariant
            i <= v@.len(),
            r.deep_view() == v.deep_view().take(i as int),
        decreases v@.len() - i,
    {
        let a = match &v[i] {
            LemmaAttr::Sources => LemmaAttr::Sources,
            LemmaAttr::Reuse => LemmaAttr::Reuse,
            LemmaAttr::DiffReuse => LemmaAttr::DiffReuse,
            LemmaAttr::UseInduction => LemmaAttr::UseInduction,
            LemmaAttr::HideLemma(s) => LemmaAttr::HideLemma(s.clone()),
            LemmaAttr::Heuristic(s) => LemmaAttr::Heuristic(s.clone()),
            LemmaAttr::Output(o) => LemmaAttr::Output(copy_texts(o)),
            LemmaAttr::Left => LemmaAttr::Left,
            LemmaAttr::Right => LemmaAttr::Right,
        };
        put(&mut r, a);
        i = i + 1;
        assert(r.deep_view() =~= v.deep_view().take(i as int));
    }
    assert(v.deep_view().take(v@.len() as int) =~= v.deep_view());
    r
}

pub fn copy_term_opt(o: &Option<Term>) -> (r: Option<Term>)
    ensures
        r.deep_view() == o.deep_view(),
{
    match o {
        Some(t) => Some(copy_term(t)),
        None => None,
    }
}

pub fn copy_comb(c: &ProcessComb) -> (r: ProcessComb)
    ensures
        r.deep_view() == c.deep_view(),
{
    match c {
        ProcessComb::Parallel => ProcessComb::Parallel,
        ProcessComb::Ndc => ProcessComb::Ndc,
        ProcessComb::Lookup(t, v) => ProcessComb::Lookup(copy_term(t), copy_var(v)),
        ProcessComb::Cond(Condition::Eq(a, b)) => {
            ProcessComb::Cond(Condition::Eq(copy_term(a), copy_term(b)))
        },
        ProcessComb::Cond(Condition::Formula(f)) => {
            ProcessComb::Cond(Condition::Formula(copy_formula(f)))
        },
        ProcessComb::Let { pat, value } => {
            ProcessComb::Let { pat: copy_term(pat), value: copy_term(value) }
        },
    }
}

pub fn copy_action(a: &SapicAction) -> (r: SapicAction)
    ensures
        r.deep_view() == a.deep_view(),
{
    match a {
        SapicAction::New(v) => SapicAction::New(copy_var(v)),
        SapicAction::Insert(x, y) => SapicAction::Insert(copy_term(x), copy_term(y)),
        SapicAction::Delete(x) => SapicAction::Delete(copy_term(x)),
        SapicAction::ChIn { chan, msg } => {
            SapicAction::ChIn { chan: copy_term_opt(chan), msg: copy_term(msg) }
        },
        SapicAction::ChOut { chan, msg } => {
            SapicAction::ChOut { chan: copy_term_opt(chan), msg: copy_term(msg) }
        },
        SapicAction::Lock(x) => SapicAction::Lock(copy_term(x)),
        SapicAction::Unlock(x) => SapicAction::Unlock(copy_term(x)),
        SapicAction::Event(f) => SapicAction::Event(copy_fact(f)),
        SapicAction::Msr { prems, acts, concs, restrictions } => SapicAction::Msr {
            prems: copy_facts(prems),
            acts: copy_facts(acts),
            concs: copy_facts(concs),
            restrictions: copy_formulas(restrictions),
        },
    }
}

pub fn copy_process(p: &Process) -> (r: Process)
    ensures
        r.deep_view() == p.deep_view(),
    decreases p,
{
    match p {
        Process::Null => Process::Null,
        Process::Replication(a) => Process::Replication(Box::new(copy_process(a))),
        Process::Comb { comb, left, right } => Process::Comb {
            comb: copy_comb(comb),
            left: Box::new(copy_process(left)),
            right: Box::new(copy_process(right)),
        },
        Process::Action { action, body } => Process::Action {
            action: copy_action(action),
            body: Box::new(copy_process(body)),
        },
        Process::AtAnnotation(a, t) => Process::AtAnnotation(
            Box::new(copy_process(a)),
            copy_term(t),
        ),
        Process::Call { name, args } => Process::Call {
            name: name.clone(),
            args: copy_terms(args),
        },
    }
}

impl Clone for Term {
    fn clone(&self) -> (r: Self)
        ensures
            r.deep_view() == self.deep_view(),
    {
        copy_term(self)
    }
}

impl Clone for Fact {
    fn clone(&self) -> (r: Self)
        ensures
            r.deep_view() == self.deep_view(),
    {
        copy_fact(self)
    }
}

impl Clone for Formula {
    fn clone(&self) -> (r: Self)
        ensures
            r.deep_view() == self.deep_view(),
    {
        copy_formula(self)
    }
}

impl Clone for Rule {
    fn clone(&self) -> (r: Self)
        ensures
            r.deep_view() == self.deep_view(),
    {
        copy_rule(self)
    }
}

impl Clone for Process {
    fn clone(&self) -> (r: Self)
        ensures
            r.deep_view() == self.deep_view(),
    {
        copy_process(self)
    }
}

pub fn same_text_opt(a: &Option<String>, b: &Option<String>) -> (r: bool)
    ensures
        r == (a.deep_view() == b.deep_view()),
{
    match (a, b) {
        (Some(x), Some(y)) => same(x, y),
        (None, None) => true,
        _ => false,
    }
}

pub fn same_var(a: &VarSpec, b: &VarSpec) -> (r: bool)
    ensures
        r == (a.deep_view() == b.deep_view()),
{
    same(&a.name, &b.name) && a.idx == b.idx && a.sort == b.sort && same_text_opt(&a.typ, &b.typ)
}

pub fn same_vars(a: &Vec<VarSpec>, b: &Vec<VarSpec>) -> (r: bool)
    ensures
        r == (a.deep_view() == b.deep_view()),
{
    if a.len() != b.len() {
        assert(a.deep_view().len() != b.deep_view().len());
        return false;
    }
    let mut i: usize = 0;
    while i < a.len()
        invariant
            a@.len() == b@.len(),
            i <= a@.len(),
            forall|j: int| 0 <= j < i ==> a.deep_view()[j] == b.deep_view()[j],
        decreases a@.len() - i,
    {
        if !same_var(&a[i], &b[i]) {
            assert(a.deep_view()[i as int] != b.deep_view()[i as int]);
            return false;
        }
        i = i + 1;
    }
    assert(a.deep_view() =~= b.deep_view());
    true
}

/// Whether `v` is one of `vs`.
pub fn has_var(vs: &Vec<VarSpec>, v: &VarSpec) -> (r: bool)
    ensures
        r == vs.deep_view().contains(v.deep_view()),
{
    let mut i: usize = 0;
    while i < vs.len()
        invariant
            i <= vs@.len(),
            forall|j: int| 0 <= j < i ==> vs.deep_view()[j] != v.deep_view(),
        decreases vs@.len() - i,
    {
        if same_var(&vs[i], v) {
            assert(vs.deep_view()[i as int] == v.deep_view());
            return true;
        }
        i = i + 1;
    }
    false
}

pub fn same_op(a: &BinOp, b: &BinOp) -> (r: bool)
    ensures
        r == (a.deep_view() == b.deep_view()),
{
    match (a, b) {
        (BinOp::Exp, BinOp::Exp) => true,
        (BinOp::Mult, BinOp::Mult) => true,
        (BinOp::Xor, BinOp::Xor) => true,
        (BinOp::Union, BinOp::Union) => true,
        (BinOp::NatPlus, BinOp::NatPlus) => true,
        (BinOp::AcFct(f), BinOp::AcFct(g)) => same(f, g),
        _ => false,
    }
}

pub fn same_term(a: &Term, b: &Term) -> (r: bool)
    ensures
        r == (a.deep_view() == b.deep_view()),
    decreases a,
{
    match (a, b) {
        (Term::Var(x), Term::Var(y)) => same_var(x, y),
        (Term::PubLit(x), Term::PubLit(y)) => same(x, y),
        (Term::FreshLit(x), Term::FreshLit(y)) => same(x, y),
        (Term::NatLit(x), Term::NatLit(y)) => same(x, y),
        (Term::Number(x), Term::Number(y)) => *x == *y,
        (Term::NumberOne, Term::NumberOne) => true,
        (Term::NatOne, Term::NatOne) => true,
        (Term::DhNeutral, Term::DhNeutral) => true,
        (Term::App(f, x), Term::App(g, y)) => same(f, g) && same_terms(x, y),
        (Term::AlgApp(f, x, y), Term::AlgApp(g, u, v)) => {
            same(f, g) && same_term(x, u) && same_term(y, v)
        },
        (Term::Pair(x), Term::Pair(y)) => same_terms(x, y),
        (Term::Diff(x, y), Term::Diff(u, v)) => same_term(x, u) && same_term(y, v),
        (Term::BinOp(o, x, y), Term::BinOp(p, u, v)) => {
            same_op(o, p) && same_term(x, u) && same_term(y, v)
        },
        (Term::PatMatch(x), Term::PatMatch(y)) => same_term(x, y),
        _ => false,
    }
}

pub fn same_terms(a: &Vec<Term>, b: &Vec<Term>) -> (r: bool)
    ensures
        r == (a.deep_view() == b.deep_view()),
    decreases a,
{
    if a.len() != b.len() {
        assert(a.deep_view().len() != b.deep_view().len());
        return false;
    }
    let mut i: usize = 0;
    while i < a.len()
        invariant
            a@.len() == b@.len(),
            i <= a@.len(),
            forall|j: int| 0 <= j < i ==> a.deep_view()[j] == b.deep_view()[j],
        decreases a@.len() - i,
    {
        if !same_term(&a[i], &b[i]) {
            assert(a.deep_view()[i as int] != b.deep_view()[i as int]);
            return false;
        }
        i = i + 1;
    }
    assert(a.deep_view() =~= b.deep_view());
    true
}

pub fn same_annotations(a: &Vec<FactAnnotation>, b: &Vec<FactAnnotation>) -> (r: bool)
    ensures
        r == (a.deep_view() == b.deep_view()),
{
    if a.len() != b.len() {
        assert(a.deep_view().len() != b.deep_view().len());
        return false;
    }
    let mut i: usize = 0;
    while i < a.len()
        invariant
            a@.len() == b@.len(),
            i <= a@.len(),
            forall|j: int| 0 <= j < i ==> a.deep_view()[j] == b.deep_view()[j],
        decreases a@.len() - i,
    {
        if a[i] != b[i] {
            assert(a.deep_view()[i as int] != b.deep_view()[i as int]);
            return false;
        }
        i = i + 1;
    }
    assert(a.deep_view() =~= b.deep_view());
    true
}

pub fn same_fact(a: &Fact, b: &Fact) -> (r: bool)
    ensures
        r == (a.deep_view() == b.deep_view()),
{
    a.persistent == b.persistent && same(&a.name, &b.name) && same_terms(&a.args, &b.args)
        && same_annotations(&a.annotations, &b.annotations)
}

pub fn same_facts(a: &Vec<Fact>, b: &Vec<Fact>) -> (r: bool)
    ensures
        r == (a.deep_view() == b.deep_view()),
{
    if a.len() != b.len() {
        assert(a.deep_view().len() != b.deep_view().len());
        return false;
    }
    let mut i: usize = 0;
    while i < a.len()
        invariant
            a@.len() == b@.len(),
            i <= a@.len(),
            forall|j: int| 0 <= j < i ==> a.deep_view()[j] == b.deep_view()[j],
        decreases a@.len() - i,
    {
        if !same_fact(&a[i], &b[i]) {
            assert(a.deep_view()[i as int] != b.deep_view()[i as int]);
            return false;
        }
        i = i + 1;
    }
    assert(a.deep_view() =~= b.deep_view());
    true
}

pub fn same_atom(a: &Atom, b: &Atom) -> (r: bool)
    ensures
        r == (a.deep_view() == b.deep_view()),
{
    match (a, b) {
        (Atom::Eq(x, y), Atom::Eq(u, v)) => same_term(x, u) && same_term(y, v),
        (Atom::Less(x, y), Atom::Less(u, v)) => same_term(x, u) && same_term(y, v),
        (Atom::LessMset(x, y), Atom::LessMset(u, v)) => same_term(x, u) && same_term(y, v),
        (Atom::Subterm(x, y), Atom::Subterm(u, v)) => same_term(x, u) && same_term(y, v),
        (Atom::Action(x, y), Atom::Action(u, v)) => same_fact(x, u) && same_term(y, v),
        (Atom::Last(x), Atom::Last(u)) => same_term(x, u),
        (Atom::Pred(x), Atom::Pred(u)) => same_fact(x, u),
        _ => false,
    }
}

pub fn same_formula(a: &Formula, b: &Formula) -> (r: bool)
    ensures
        r == (a.deep_view() == b.deep_view()),
    decreases a,
{
    match (a, b) {
        (Formula::False, Formula::False) => true,
        (Formula::True, Formula::True) => true,
        (Formula::Atom(x), Formula::Atom(y)) => same_atom(x, y),
        (Formula::Not(x), Formula::Not(y)) => same_formula(x, y),
        (Formula::And(x, y), Formula::And(u, v)) => same_formula(x, u) && same_formula(y, v),
        (Formula::Or(x, y), Formula::Or(u, v)) => same_formula(x, u) && same_formula(y, v),
        (Formula::Implies(x, y), Formula::Implies(u, v)) => {
            same_formula(x, u) && same_formula(y, v)
        },
        (Formula::Iff(x, y), Formula::Iff(u, v)) => same_formula(x, u) && same_formula(y, v),
        (Formula::Forall(x, y), Formula::Forall(u, v)) => same_vars(x, u) && same_formula(y, v),
        (Formula::Exists(x, y), Formula::Exists(u, v)) => same_vars(x, u) && same_formula(y, v),
        _ => false,
    }
}

pub fn same_formulas(a: &Vec<Formula>, b: &Vec<Formula>) -> (r: bool)
    ensures
        r == (a.deep_view() == b.deep_view()),
{
    if a.len() != b.len() {
        assert(a.deep_view().len() != b.deep_view().len());
        return false;
    }
    let mut i: usize = 0;
    while i < a.len()
        invariant
            a@.len() == b@.len(),
            i <= a@.len(),
            forall|j: int| 0 <= j < i ==> a.deep_view()[j] == b.deep_view()[j],
        decreases a@.len() - i,
    {
        if !same_formula(&a[i], &b[i]) {
            assert(a.deep_view()[i as int] != b.deep_view()[i as int]);
            return false;
        }
        i = i + 1;
    }
    assert(a.deep_view() =~= b.deep_view());
    true
}

pub fn same_rule_attr(a: &RuleAttr, b: &RuleAttr) -> (r: bool)
    ensures
        r == (a.deep_view() == b.deep_view()),
{
    match (a, b) {
        (RuleAttr::Color(x), RuleAttr::Color(y)) => same(x, y),
        (RuleAttr::NoDerivCheck, RuleAttr::NoDerivCheck) => true,
        (RuleAttr::Role(x), RuleAttr::Role(y)) => same(x, y),
        (RuleAttr::IsSapicRule, RuleAttr::IsSapicRule) => true,
        (RuleAttr::External(k, x), RuleAttr::External(l, y)) => same(k, l) && same_text_opt(x, y),
        _ => false,
    }
}

pub fn same_rule_attrs(a: &Vec<RuleAttr>, b: &Vec<RuleAttr>) -> (r: bool)
    ensures
        r == (a.deep_view() == b.deep_view()),
{
    if a.len() != b.len() {
        assert(a.deep_view().len() != b.deep_view().len());
        return false;
    }
    let mut i: usize = 0;
    while i < a.len()
        invariant
            a@.len() == b@.len(),
            i <= a@.len(),
            forall|j: int| 0 <= j < i ==> a.deep_view()[j] == b.deep_view()[j],
        decreases a@.len() - i,
    {
        if !same_rule_attr(&a[i], &b[i]) {
            assert(a.deep_view()[i as int] != b.deep_view()[i as int]);
            return false;
        }
        i = i + 1;
    }
    assert(a.deep_view() =~= b.deep_view());
    true
}

/// Whether two rules agree in everything.
pub fn same_rule(a: &Rule, b: &Rule) -> (r: bool)
    ensures
        r == (a.deep_view() == b.deep_view()),
    decreases a,
{
    let sides = match (&a.left_right, &b.left_right) {
        (Some(x), Some(y)) => same_rule(&x.left, &y.left) && same_rule(&x.right, &y.right),
        (None, None) => true,
        _ => false,
    };
    if !(sides && same(&a.name, &b.name) && same_text_opt(&a.modulo, &b.modulo)
        && same_rule_attrs(&a.attributes, &b.attributes) && same_facts(&a.premises, &b.premises)
        && same_facts(&a.actions, &b.actions) && same_facts(&a.conclusions, &b.conclusions)
        && same_formulas(&a.embedded_restrictions, &b.embedded_restrictions)) {
        return false;
    }
    if a.variants.len() != b.variants.len() {
        assert(a.variants.deep_view().len() != b.variants.deep_view().len());
        return false;
    }
    let mut i: usize = 0;
    while i < a.variants.len()
        invariant
            a.variants@.len() == b.variants@.len(),
            i <= a.variants@.len(),
            forall|j: int|
                0 <= j < i ==> a.variants.deep_view()[j] == b.variants.deep_view()[j],
        decreases a.variants@.len() - i,
    {
        if !same_rule(&a.variants[i], &b.variants[i]) {
            assert(a.variants.deep_view()[i as int] != b.variants.deep_view()[i as int]);
            return false;
        }
        i = i + 1;
    }
    assert(a.variants.deep_view() =~= b.variants.deep_view());
    true
}

} // verus!
