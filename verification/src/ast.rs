//! The syntax trees of theories, and their models.

use vstd::prelude::*;

verus! {

/// The sorts of variables.
#[derive(Debug, Clone, Copy, PartialEq, Eq, Structural)]
pub enum LSort {
    Pub,
    Fresh,
    Msg,
    Node,
    Nat,
}

impl DeepView for LSort {
    type V = LSort;

    open spec fn deep_view(&self) -> LSort {
        *self
    }
}

/// A variable: name, index, sort and, inside processes, a type.
#[derive(Debug, Clone, PartialEq)]
pub struct VarSpec {
    pub name: String,
    pub idx: u64,
    pub sort: LSort,
    pub typ: Option<String>,
}

pub struct VarM {
    pub name: Seq<char>,
    pub idx: u64,
    pub sort: LSort,
    pub typ: Option<Seq<char>>,
}

impl DeepView for VarSpec {
    type V = VarM;

    open spec fn deep_view(&self) -> VarM {
        VarM { name: self.name@, idx: self.idx, sort: self.sort, typ: self.typ.deep_view() }
    }
}

/// The infix operators of terms.
#[derive(Debug, Clone, PartialEq)]
pub enum BinOp {
    Exp,
    Mult,
    Xor,
    Union,
    NatPlus,
    /// A declared associative-commutative symbol.
    AcFct(String),
}

pub enum BinOpM {
    Exp,
    Mult,
    Xor,
    Union,
    NatPlus,
    AcFct(Seq<char>),
}

impl DeepView for BinOp {
    type V = BinOpM;

    open spec fn deep_view(&self) -> BinOpM {
        match *self {
            BinOp::Exp => BinOpM::Exp,
            BinOp::Mult => BinOpM::Mult,
            BinOp::Xor => BinOpM::Xor,
            BinOp::Union => BinOpM::Union,
            BinOp::NatPlus => BinOpM::NatPlus,
            BinOp::AcFct(f) => BinOpM::AcFct(f@),
        }
    }
}

/// Terms.
#[derive(Debug, PartialEq)]
pub enum Term {
    Var(VarSpec),
    PubLit(String),
    FreshLit(String),
    NatLit(String),
    Number(u64),
    NumberOne,
    NatOne,
    DhNeutral,
    App(String, Vec<Term>),
    /// `f{a}b`.
    AlgApp(String, Box<Term>, Box<Term>),
    Pair(Vec<Term>),
    Diff(Box<Term>, Box<Term>),
    BinOp(BinOp, Box<Term>, Box<Term>),
    /// `=x` in a pattern.
    PatMatch(Box<Term>),
}

pub enum TermM {
    Var(VarM),
    PubLit(Seq<char>),
    FreshLit(Seq<char>),
    NatLit(Seq<char>),
    Number(u64),
    NumberOne,
    NatOne,
    DhNeutral,
    App(Seq<char>, Seq<TermM>),
    AlgApp(Seq<char>, Box<TermM>, Box<TermM>),
    Pair(Seq<TermM>),
    Diff(Box<TermM>, Box<TermM>),
    BinOp(BinOpM, Box<TermM>, Box<TermM>),
    PatMatch(Box<TermM>),
}

/// The model of a term.
pub open spec fn term_m(t: Term) -> TermM
    decreases t,
{
    match t {
        Term::Var(v) => TermM::Var(v.deep_view()),
        Term::PubLit(s) => TermM::PubLit(s@),
        Term::FreshLit(s) => TermM::FreshLit(s@),
        Term::NatLit(s) => TermM::NatLit(s@),
        Term::Number(n) => TermM::Number(n),
        Term::NumberOne => TermM::NumberOne,
        Term::NatOne => TermM::NatOne,
        Term::DhNeutral => TermM::DhNeutral,
        Term::App(f, args) => TermM::App(
            f@,
            Seq::new(
                args@.len(),
                |i: int| if 0 <= i < args@.len() { term_m(args@[i]) } else { arbitrary() },
            ),
        ),
        Term::AlgApp(f, a, b) => TermM::AlgApp(f@, Box::new(term_m(*a)), Box::new(term_m(*b))),
        Term::Pair(args) => TermM::Pair(
            Seq::new(
                args@.len(),
                |i: int| if 0 <= i < args@.len() { term_m(args@[i]) } else { arbitrary() },
            ),
        ),
        Term::Diff(a, b) => TermM::Diff(Box::new(term_m(*a)), Box::new(term_m(*b))),
        Term::BinOp(op, a, b) => TermM::BinOp(
            op.deep_view(),
            Box::new(term_m(*a)),
            Box::new(term_m(*b)),
        ),
        Term::PatMatch(a) => TermM::PatMatch(Box::new(term_m(*a))),
    }
}

impl DeepView for Term {
    type V = TermM;

    open spec fn deep_view(&self) -> TermM {
        term_m(*self)
    }
}

/// The model of an application lists the models of its arguments.
pub broadcast proof fn app_model(f: String, args: Vec<Term>)
    ensures
        #[trigger] term_m(Term::App(f, args)) == TermM::App(f@, args.deep_view()),
{
    assert(term_m(Term::App(f, args))->App_1 =~= args.deep_view());
}

/// The model of a tuple lists the models of its components.
pub broadcast proof fn pair_model(args: Vec<Term>)
    ensures
        #[trigger] term_m(Term::Pair(args)) == TermM::Pair(args.deep_view()),
{
    assert(term_m(Term::Pair(args))->Pair_0 =~= args.deep_view());
}

/// How a fact is treated when its origins are looked for.
#[derive(Debug, Clone, Copy, PartialEq, Eq, PartialOrd, Ord, Structural)]
pub enum FactAnnotation {
    SolveFirst,
    SolveLast,
    NoSources,
}

impl DeepView for FactAnnotation {
    type V = FactAnnotation;

    open spec fn deep_view(&self) -> FactAnnotation {
        *self
    }
}

/// A fact.
#[derive(Debug, PartialEq)]
pub struct Fact {
    pub persistent: bool,
    pub name: String,
    pub args: Vec<Term>,
    pub annotations: Vec<FactAnnotation>,
}

pub struct FactM {
    pub persistent: bool,
    pub name: Seq<char>,
    pub args: Seq<TermM>,
    pub annotations: Seq<FactAnnotation>,
}

impl DeepView for Fact {
    type V = FactM;

    open spec fn deep_view(&self) -> FactM {
        FactM {
            persistent: self.persistent,
            name: self.name@,
            args: self.args.deep_view(),
            annotations: self.annotations.deep_view(),
        }
    }
}

/// Atomic formulas.
#[derive(Debug, PartialEq)]
pub enum Atom {
    Eq(Term, Term),
    Less(Term, Term),
    LessMset(Term, Term),
    Subterm(Term, Term),
    /// `fact @ timepoint`.
    Action(Fact, Term),
    Last(Term),
    Pred(Fact),
}

pub enum AtomM {
    Eq(TermM, TermM),
    Less(TermM, TermM),
    LessMset(TermM, TermM),
    Subterm(TermM, TermM),
    Action(FactM, TermM),
    Last(TermM),
    Pred(FactM),
}

impl DeepView for Atom {
    type V = AtomM;

    open spec fn deep_view(&self) -> AtomM {
        match *self {
            Atom::Eq(a, b) => AtomM::Eq(a.deep_view(), b.deep_view()),
            Atom::Less(a, b) => AtomM::Less(a.deep_view(), b.deep_view()),
            Atom::LessMset(a, b) => AtomM::LessMset(a.deep_view(), b.deep_view()),
            Atom::Subterm(a, b) => AtomM::Subterm(a.deep_view(), b.deep_view()),
            Atom::Action(f, t) => AtomM::Action(f.deep_view(), t.deep_view()),
            Atom::Last(t) => AtomM::Last(t.deep_view()),
            Atom::Pred(f) => AtomM::Pred(f.deep_view()),
        }
    }
}

/// Formulas.
#[derive(Debug, PartialEq)]
pub enum Formula {
    False,
    True,
    Atom(Atom),
    Not(Box<Formula>),
    And(Box<Formula>, Box<Formula>),
    Or(Box<Formula>, Box<Formula>),
    Implies(Box<Formula>, Box<Formula>),
    Iff(Box<Formula>, Box<Formula>),
    Forall(Vec<VarSpec>, Box<Formula>),
    Exists(Vec<VarSpec>, Box<Formula>),
}

pub enum FormulaM {
    False,
    True,
    Atom(AtomM),
    Not(Box<FormulaM>),
    And(Box<FormulaM>, Box<FormulaM>),
    Or(Box<FormulaM>, Box<FormulaM>),
    Implies(Box<FormulaM>, Box<FormulaM>),
    Iff(Box<FormulaM>, Box<FormulaM>),
    Forall(Seq<VarM>, Box<FormulaM>),
    Exists(Seq<VarM>, Box<FormulaM>),
}

/// The model of a formula.
pub open spec fn formula_m(f: Formula) -> FormulaM
    decreases f,
{
    match f {
        Formula::False => FormulaM::False,
        Formula::True => FormulaM::True,
        Formula::Atom(a) => FormulaM::Atom(a.deep_view()),
        Formula::Not(a) => FormulaM::Not(Box::new(formula_m(*a))),
        Formula::And(a, b) => FormulaM::And(Box::new(formula_m(*a)), Box::new(formula_m(*b))),
        Formula::Or(a, b) => FormulaM::Or(Box::new(formula_m(*a)), Box::new(formula_m(*b))),
        Formula::Implies(a, b) => FormulaM::Implies(
            Box::new(formula_m(*a)),
            Box::new(formula_m(*b)),
        ),
        Formula::Iff(a, b) => FormulaM::Iff(Box::new(formula_m(*a)), Box::new(formula_m(*b))),
        Formula::Forall(vs, a) => FormulaM::Forall(vs.deep_view(), Box::new(formula_m(*a))),
        Formula::Exists(vs, a) => FormulaM::Exists(vs.deep_view(), Box::new(formula_m(*a))),
    }
}

impl DeepView for Formula {
    type V = FormulaM;

    open spec fn deep_view(&self) -> FormulaM {
        formula_m(*self)
    }
}

/// Attributes of a rule.
#[derive(Debug, Clone, PartialEq)]
pub enum RuleAttr {
    Color(String),
    NoDerivCheck,
    Role(String),
    IsSapicRule,
    /// An attribute of another tool, with its value if it has one.
    External(String, Option<String>),
}

pub enum RuleAttrM {
    Color(Seq<char>),
    NoDerivCheck,
    Role(Seq<char>),
    IsSapicRule,
    External(Seq<char>, Option<Seq<char>>),
}

impl DeepView for RuleAttr {
    type V = RuleAttrM;

    open spec fn deep_view(&self) -> RuleAttrM {
        match *self {
            RuleAttr::Color(c) => RuleAttrM::Color(c@),
            RuleAttr::NoDerivCheck => RuleAttrM::NoDerivCheck,
            RuleAttr::Role(r) => RuleAttrM::Role(r@),
            RuleAttr::IsSapicRule => RuleAttrM::IsSapicRule,
            RuleAttr::External(k, v) => RuleAttrM::External(k@, v.deep_view()),
        }
    }
}

/// The two sides a rule of a diff theory was written with.
#[derive(Debug, PartialEq)]
pub struct RuleSides {
    pub left: Box<Rule>,
    pub right: Box<Rule>,
}

pub struct RuleSidesM {
    pub left: Box<RuleM>,
    pub right: Box<RuleM>,
}

/// A multiset-rewriting rule.
#[derive(Debug, PartialEq)]
pub struct Rule {
    pub name: String,
    pub modulo: Option<String>,
    pub attributes: Vec<RuleAttr>,
    pub premises: Vec<Fact>,
    pub actions: Vec<Fact>,
    pub conclusions: Vec<Fact>,
    pub embedded_restrictions: Vec<Formula>,
    pub variants: Vec<Rule>,
    pub left_right: Option<RuleSides>,
}

pub struct RuleM {
    pub name: Seq<char>,
    pub modulo: Option<Seq<char>>,
    pub attributes: Seq<RuleAttrM>,
    pub premises: Seq<FactM>,
    pub actions: Seq<FactM>,
    pub conclusions: Seq<FactM>,
    pub embedded_restrictions: Seq<FormulaM>,
    pub variants: Seq<RuleM>,
    pub left_right: Option<RuleSidesM>,
}

/// The model of a rule.
pub open spec fn rule_m(r: Rule) -> RuleM
    decreases r,
{
    RuleM {
        name: r.name@,
        modulo: r.modulo.deep_view(),
        attributes: r.attributes.deep_view(),
        premises: r.premises.deep_view(),
        actions: r.actions.deep_view(),
        conclusions: r.conclusions.deep_view(),
        embedded_restrictions: r.embedded_restrictions.deep_view(),
        variants: Seq::new(
            r.variants@.len(),
            |i: int| if 0 <= i < r.variants@.len() { rule_m(r.variants@[i]) } else { arbitrary() },
        ),
        left_right: match r.left_right {
            Some(s) => Some(
                RuleSidesM { left: Box::new(rule_m(*s.left)), right: Box::new(rule_m(*s.right)) },
            ),
            None => None,
        },
    }
}

impl DeepView for Rule {
    type V = RuleM;

    open spec fn deep_view(&self) -> RuleM {
        rule_m(*self)
    }
}

/// The variants of a rule are modelled one by one.
pub broadcast proof fn rule_model(r: Rule)
    ensures
        (#[trigger] rule_m(r)).variants == r.variants.deep_view(),
{
    assert(rule_m(r).variants =~= r.variants.deep_view());
}

/// On which side of a diff theory a restriction holds.
#[derive(Debug, Clone, Copy, PartialEq, Eq, Structural)]
pub enum RestrictionAttr {
    LeftRestriction,
    RightRestriction,
}

impl DeepView for RestrictionAttr {
    type V = RestrictionAttr;

    open spec fn deep_view(&self) -> RestrictionAttr {
        *self
    }
}

/// A restriction of the traces.
#[derive(Debug, PartialEq)]
pub struct Restriction {
    pub name: String,
    pub formula: Formula,
    pub attributes: Vec<RestrictionAttr>,
}

pub struct RestrictionM {
    pub name: Seq<char>,
    pub formula: FormulaM,
    pub attributes: Seq<RestrictionAttr>,
}

impl DeepView for Restriction {
    type V = RestrictionM;

    open spec fn deep_view(&self) -> RestrictionM {
        RestrictionM {
            name: self.name@,
            formula: self.formula.deep_view(),
            attributes: self.attributes.deep_view(),
        }
    }
}

/// Attributes of a lemma.
#[derive(Debug, Clone, PartialEq)]
pub enum LemmaAttr {
    Sources,
    Reuse,
    DiffReuse,
    UseInduction,
    HideLemma(String),
    Heuristic(String),
    Output(Vec<String>),
    Left,
    Right,
}

pub enum LemmaAttrM {
    Sources,
    Reuse,
    DiffReuse,
    UseInduction,
    HideLemma(Seq<char>),
    Heuristic(Seq<char>),
    Output(Seq<Seq<char>>),
    Left,
    Right,
}

impl DeepView for LemmaAttr {
    type V = LemmaAttrM;

    open spec fn deep_view(&self) -> LemmaAttrM {
        match *self {
            LemmaAttr::Sources => LemmaAttrM::Sources,
            LemmaAttr::Reuse => LemmaAttrM::Reuse,
            LemmaAttr::DiffReuse => LemmaAttrM::DiffReuse,
            LemmaAttr::UseInduction => LemmaAttrM::UseInduction,
            LemmaAttr::HideLemma(s) => LemmaAttrM::HideLemma(s@),
            LemmaAttr::Heuristic(s) => LemmaAttrM::Heuristic(s@),
            LemmaAttr::Output(v) => LemmaAttrM::Output(v.deep_view()),
            LemmaAttr::Left => LemmaAttrM::Left,
            LemmaAttr::Right => LemmaAttrM::Right,
        }
    }
}

/// Whether a lemma speaks of all traces or of some trace.
#[derive(Debug, Clone, Copy, PartialEq, Eq, Structural)]
pub enum TraceQuantifier {
    AllTraces,
    ExistsTrace,
}

impl DeepView for TraceQuantifier {
    type V = TraceQuantifier;

    open spec fn deep_view(&self) -> TraceQuantifier {
        *self
    }
}

/// A timepoint and the index of one of its premises or conclusions.
#[derive(Debug, PartialEq)]
pub struct NodeIndex {
    pub node: VarSpec,
    pub index: u64,
}

pub struct NodeIndexM {
    pub node: VarM,
    pub index: u64,
}

impl DeepView for NodeIndex {
    type V = NodeIndexM;

    open spec fn deep_view(&self) -> NodeIndexM {
        NodeIndexM { node: self.node.deep_view(), index: self.index }
    }
}

/// The goal of a stored `solve` step.
#[derive(Debug, PartialEq)]
pub enum GoalSpec {
    Subterm(Term, Term),
    Premise(NodeIndex, Fact),
    Action(VarSpec, Fact),
    Chain(NodeIndex, NodeIndex),
    Split(i64),
    Disj(Vec<Formula>),
}

pub enum GoalM {
    Subterm(TermM, TermM),
    Premise(NodeIndexM, FactM),
    Action(VarM, FactM),
    Chain(NodeIndexM, NodeIndexM),
    Split(i64),
    Disj(Seq<FormulaM>),
}

impl DeepView for GoalSpec {
    type V = GoalM;

    open spec fn deep_view(&self) -> GoalM {
        match *self {
            GoalSpec::Subterm(a, b) => GoalM::Subterm(a.deep_view(), b.deep_view()),
            GoalSpec::Premise(p, f) => GoalM::Premise(p.deep_view(), f.deep_view()),
            GoalSpec::Action(v, f) => GoalM::Action(v.deep_view(), f.deep_view()),
            GoalSpec::Chain(c, p) => GoalM::Chain(c.deep_view(), p.deep_view()),
            GoalSpec::Split(n) => GoalM::Split(n),
            GoalSpec::Disj(fs) => GoalM::Disj(fs.deep_view()),
        }
    }
}

/// The methods of a stored proof.
#[derive(Debug, PartialEq)]
pub enum ProofMethod {
    Sorry,
    Simplify,
    Solve(GoalSpec),
    Contradiction,
    Induction,
    Invalidated,
    Unfinishable,
    Solved,
}

pub enum MethodM {
    Sorry,
    Simplify,
    Solve(GoalM),
    Contradiction,
    Induction,
    Invalidated,
    Unfinishable,
    Solved,
}

impl DeepView for ProofMethod {
    type V = MethodM;

    open spec fn deep_view(&self) -> MethodM {
        match *self {
            ProofMethod::Sorry => MethodM::Sorry,
            ProofMethod::Simplify => MethodM::Simplify,
            ProofMethod::Solve(g) => MethodM::Solve(g.deep_view()),
            ProofMethod::Contradiction => MethodM::Contradiction,
            ProofMethod::Induction => MethodM::Induction,
            ProofMethod::Invalidated => MethodM::Invalidated,
            ProofMethod::Unfinishable => MethodM::Unfinishable,
            ProofMethod::Solved => MethodM::Solved,
        }
    }
}

/// A stored proof: a method and the proofs of the cases it leaves.
#[derive(Debug, PartialEq)]
pub struct ProofTree {
    pub method: ProofMethod,
    /// The name of each case; empty for a single unnamed one.
    pub case_names: Vec<String>,
    /// The proof of each case.
    pub cases: Vec<ProofTree>,
}

pub struct ProofTreeM {
    pub method: MethodM,
    pub case_names: Seq<Seq<char>>,
    pub cases: Seq<ProofTreeM>,
}

/// The model of a stored proof.
pub open spec fn proof_m(t: ProofTree) -> ProofTreeM
    decreases t,
{
    ProofTreeM {
        method: t.method.deep_view(),
        case_names: t.case_names.deep_view(),
        cases: Seq::new(
            t.cases@.len(),
            |i: int| if 0 <= i < t.cases@.len() { proof_m(t.cases@[i]) } else { arbitrary() },
        ),
    }
}

impl DeepView for ProofTree {
    type V = ProofTreeM;

    open spec fn deep_view(&self) -> ProofTreeM {
        proof_m(*self)
    }
}

/// The cases of a stored proof are modelled one by one.
pub broadcast proof fn proof_model(t: ProofTree)
    ensures
        (#[trigger] proof_m(t)).cases == t.cases.deep_view(),
{
    assert(proof_m(t).cases =~= t.cases.deep_view());
}

pub broadcast group group_models {
    app_model,
    pair_model,
    rule_model,
    proof_model,
}

/// A stored proof as written, and its tree where the lemma has one.
#[derive(Debug, PartialEq)]
pub struct ProofSkeleton {
    pub raw: String,
    pub tree: Option<ProofTree>,
}

pub struct SkeletonM {
    pub raw: Seq<char>,
    pub tree: Option<ProofTreeM>,
}

impl DeepView for ProofSkeleton {
    type V = SkeletonM;

    open spec fn deep_view(&self) -> SkeletonM {
        SkeletonM { raw: self.raw@, tree: self.tree.deep_view() }
    }
}

/// A lemma.
#[derive(Debug, PartialEq)]
pub struct Lemma {
    pub name: String,
    pub source_file: Option<String>,
    pub attributes: Vec<LemmaAttr>,
    pub trace_quantifier: TraceQuantifier,
    pub formula: Formula,
    pub proof: Option<ProofSkeleton>,
    /// The lemma as written, without comments.
    pub plaintext: String,
}

pub struct LemmaM {
    pub name: Seq<char>,
    pub source_file: Option<Seq<char>>,
    pub attributes: Seq<LemmaAttrM>,
    pub trace_quantifier: TraceQuantifier,
    pub formula: FormulaM,
    pub proof: Option<SkeletonM>,
    pub plaintext: Seq<char>,
}

impl DeepView for Lemma {
    type V = LemmaM;

    open spec fn deep_view(&self) -> LemmaM {
        LemmaM {
            name: self.name@,
            source_file: self.source_file.deep_view(),
            attributes: self.attributes.deep_view(),
            trace_quantifier: self.trace_quantifier,
            formula: self.formula.deep_view(),
            proof: self.proof.deep_view(),
            plaintext: self.plaintext@,
        }
    }
}

/// An accountability lemma.
#[derive(Debug, PartialEq)]
pub struct AccLemma {
    pub name: String,
    pub source_file: Option<String>,
    pub attributes: Vec<LemmaAttr>,
    pub formula: Formula,
    pub case_test_idents: Vec<String>,
}

pub struct AccLemmaM {
    pub name: Seq<char>,
    pub source_file: Option<Seq<char>>,
    pub attributes: Seq<LemmaAttrM>,
    pub formula: FormulaM,
    pub case_test_idents: Seq<Seq<char>>,
}

impl DeepView for AccLemma {
    type V = AccLemmaM;

    open spec fn deep_view(&self) -> AccLemmaM {
        AccLemmaM {
            name: self.name@,
            source_file: self.source_file.deep_view(),
            attributes: self.attributes.deep_view(),
            formula: self.formula.deep_view(),
            case_test_idents: self.case_test_idents.deep_view(),
        }
    }
}

/// A lemma on the two sides of a diff theory.
#[derive(Debug, PartialEq)]
pub struct DiffLemma {
    pub name: String,
    pub source_file: Option<String>,
    pub attributes: Vec<LemmaAttr>,
    pub proof: Option<ProofSkeleton>,
}

pub struct DiffLemmaM {
    pub name: Seq<char>,
    pub source_file: Option<Seq<char>>,
    pub attributes: Seq<LemmaAttrM>,
    pub proof: Option<SkeletonM>,
}

impl DeepView for DiffLemma {
    type V = DiffLemmaM;

    open spec fn deep_view(&self) -> DiffLemmaM {
        DiffLemmaM {
            name: self.name@,
            source_file: self.source_file.deep_view(),
            attributes: self.attributes.deep_view(),
            proof: self.proof.deep_view(),
        }
    }
}

/// A case test of accountability lemmas.
#[derive(Debug, PartialEq)]
pub struct CaseTest {
    pub name: String,
    pub formula: Formula,
}

pub struct CaseTestM {
    pub name: Seq<char>,
    pub formula: FormulaM,
}

impl DeepView for CaseTest {
    type V = CaseTestM;

    open spec fn deep_view(&self) -> CaseTestM {
        CaseTestM { name: self.name@, formula: self.formula.deep_view() }
    }
}

/// The condition of a process `if`.
#[derive(Debug, PartialEq)]
pub enum Condition {
    Eq(Term, Term),
    Formula(Formula),
}

pub enum ConditionM {
    Eq(TermM, TermM),
    Formula(FormulaM),
}

impl DeepView for Condition {
    type V = ConditionM;

    open spec fn deep_view(&self) -> ConditionM {
        match *self {
            Condition::Eq(a, b) => ConditionM::Eq(a.deep_view(), b.deep_view()),
            Condition::Formula(f) => ConditionM::Formula(f.deep_view()),
        }
    }
}

/// What joins two processes.
#[derive(Debug, PartialEq)]
pub enum ProcessComb {
    Parallel,
    Ndc,
    Lookup(Term, VarSpec),
    Cond(Condition),
    Let { pat: Term, value: Term },
}

pub enum CombM {
    Parallel,
    Ndc,
    Lookup(TermM, VarM),
    Cond(ConditionM),
    Let { pat: TermM, value: TermM },
}

impl DeepView for ProcessComb {
    type V = CombM;

    open spec fn deep_view(&self) -> CombM {
        match *self {
            ProcessComb::Parallel => CombM::Parallel,
            ProcessComb::Ndc => CombM::Ndc,
            ProcessComb::Lookup(t, v) => CombM::Lookup(t.deep_view(), v.deep_view()),
            ProcessComb::Cond(c) => CombM::Cond(c.deep_view()),
            ProcessComb::Let { pat, value } => CombM::Let {
                pat: pat.deep_view(),
                value: value.deep_view(),
            },
        }
    }
}

/// The actions of processes.
#[derive(Debug, PartialEq)]
pub enum SapicAction {
    New(VarSpec),
    Insert(Term, Term),
    Delete(Term),
    ChIn { chan: Option<Term>, msg: Term },
    ChOut { chan: Option<Term>, msg: Term },
    Lock(Term),
    Unlock(Term),
    Event(Fact),
    Msr { prems: Vec<Fact>, acts: Vec<Fact>, concs: Vec<Fact>, restrictions: Vec<Formula> },
}

pub enum ActionM {
    New(VarM),
    Insert(TermM, TermM),
    Delete(TermM),
    ChIn { chan: Option<TermM>, msg: TermM },
    ChOut { chan: Option<TermM>, msg: TermM },
    Lock(TermM),
    Unlock(TermM),
    Event(FactM),
    Msr { prems: Seq<FactM>, acts: Seq<FactM>, concs: Seq<FactM>, restrictions: Seq<FormulaM> },
}

impl DeepView for SapicAction {
    type V = ActionM;

    open spec fn deep_view(&self) -> ActionM {
        match *self {
            SapicAction::New(v) => ActionM::New(v.deep_view()),
            SapicAction::Insert(a, b) => ActionM::Insert(a.deep_view(), b.deep_view()),
            SapicAction::Delete(a) => ActionM::Delete(a.deep_view()),
            SapicAction::ChIn { chan, msg } => ActionM::ChIn {
                chan: chan.deep_view(),
                msg: msg.deep_view(),
            },
            SapicAction::ChOut { chan, msg } => ActionM::ChOut {
                chan: chan.deep_view(),
                msg: msg.deep_view(),
            },
            SapicAction::Lock(a) => ActionM::Lock(a.deep_view()),
            SapicAction::Unlock(a) => ActionM::Unlock(a.deep_view()),
            SapicAction::Event(f) => ActionM::Event(f.deep_view()),
            SapicAction::Msr { prems, acts, concs, restrictions } => ActionM::Msr {
                prems: prems.deep_view(),
                acts: acts.deep_view(),
                concs: concs.deep_view(),
                restrictions: restrictions.deep_view(),
            },
        }
    }
}

/// Processes.
#[derive(Debug, PartialEq)]
pub enum Process {
    Null,
    Replication(Box<Process>),
    Comb { comb: ProcessComb, left: Box<Process>, right: Box<Process> },
    Action { action: SapicAction, body: Box<Process> },
    AtAnnotation(Box<Process>, Term),
    Call { name: String, args: Vec<Term> },
}

pub enum ProcessM {
    Null,
    Replication(Box<ProcessM>),
    Comb { comb: CombM, left: Box<ProcessM>, right: Box<ProcessM> },
    Action { action: ActionM, body: Box<ProcessM> },
    AtAnnotation(Box<ProcessM>, TermM),
    Call { name: Seq<char>, args: Seq<TermM> },
}

/// The model of a process.
pub open spec fn process_m(p: Process) -> ProcessM
    decreases p,
{
    match p {
        Process::Null => ProcessM::Null,
        Process::Replication(a) => ProcessM::Replication(Box::new(process_m(*a))),
        Process::Comb { comb, left, right } => ProcessM::Comb {
            comb: comb.deep_view(),
            left: Box::new(process_m(*left)),
            right: Box::new(process_m(*right)),
        },
        Process::Action { action, body } => ProcessM::Action {
            action: action.deep_view(),
            body: Box::new(process_m(*body)),
        },
        Process::AtAnnotation(a, t) => ProcessM::AtAnnotation(
            Box::new(process_m(*a)),
            t.deep_view(),
        ),
        Process::Call { name, args } => ProcessM::Call { name: name@, args: args.deep_view() },
    }
}

impl DeepView for Process {
    type V = ProcessM;

    open spec fn deep_view(&self) -> ProcessM {
        process_m(*self)
    }
}

/// A named process.
#[derive(Debug, PartialEq)]
pub struct ProcessDef {
    pub name: String,
    pub vars: Option<Vec<VarSpec>>,
    pub body: Process,
}

pub struct ProcessDefM {
    pub name: Seq<char>,
    pub vars: Option<Seq<VarM>>,
    pub body: ProcessM,
}

impl DeepView for ProcessDef {
    type V = ProcessDefM;

    open spec fn deep_view(&self) -> ProcessDefM {
        ProcessDefM {
            name: self.name@,
            vars: self.vars.deep_view(),
            body: self.body.deep_view(),
        }
    }
}

/// A selector of a tactic: a named function and its arguments.
#[derive(Debug, PartialEq)]
pub struct SelectorLeaf {
    pub name: String,
    pub params: Vec<String>,
}

pub struct LeafM {
    pub name: Seq<char>,
    pub params: Seq<Seq<char>>,
}

impl DeepView for SelectorLeaf {
    type V = LeafM;

    open spec fn deep_view(&self) -> LeafM {
        LeafM { name: self.name@, params: self.params.deep_view() }
    }
}

/// Combinations of selectors.
#[derive(Debug, PartialEq)]
pub enum SelectorExpr {
    Leaf(SelectorLeaf),
    Not(Box<SelectorExpr>),
    And(Box<SelectorExpr>, Box<SelectorExpr>),
    Or(Box<SelectorExpr>, Box<SelectorExpr>),
}

pub enum SelectorM {
    Leaf(LeafM),
    Not(Box<SelectorM>),
    And(Box<SelectorM>, Box<SelectorM>),
    Or(Box<SelectorM>, Box<SelectorM>),
}

/// The model of a selector.
pub open spec fn selector_m(s: SelectorExpr) -> SelectorM
    decreases s,
{
    match s {
        SelectorExpr::Leaf(l) => SelectorM::Leaf(l.deep_view()),
        SelectorExpr::Not(a) => SelectorM::Not(Box::new(selector_m(*a))),
        SelectorExpr::And(a, b) => SelectorM::And(
            Box::new(selector_m(*a)),
            Box::new(selector_m(*b)),
        ),
        SelectorExpr::Or(a, b) => SelectorM::Or(
            Box::new(selector_m(*a)),
            Box::new(selector_m(*b)),
        ),
    }
}

impl DeepView for SelectorExpr {
    type V = SelectorM;

    open spec fn deep_view(&self) -> SelectorM {
        selector_m(*self)
    }
}

/// One block of a tactic.
#[derive(Debug, PartialEq)]
pub struct PrioBlock {
    pub ranking: String,
    pub selectors: Vec<SelectorExpr>,
}

pub struct PrioM {
    pub ranking: Seq<char>,
    pub selectors: Seq<SelectorM>,
}

impl DeepView for PrioBlock {
    type V = PrioM;

    open spec fn deep_view(&self) -> PrioM {
        PrioM { ranking: self.ranking@, selectors: self.selectors.deep_view() }
    }
}

/// A tactic.
#[derive(Debug, PartialEq)]
pub struct Tactic {
    pub name: String,
    pub presort: char,
    pub prios: Vec<PrioBlock>,
    pub deprios: Vec<PrioBlock>,
}

pub struct TacticM {
    pub name: Seq<char>,
    pub presort: char,
    pub prios: Seq<PrioM>,
    pub deprios: Seq<PrioM>,
}

impl DeepView for Tactic {
    type V = TacticM;

    open spec fn deep_view(&self) -> TacticM {
        TacticM {
            name: self.name@,
            presort: self.presort,
            prios: self.prios.deep_view(),
            deprios: self.deprios.deep_view(),
        }
    }
}

/// A declared function symbol.
#[derive(Debug, Clone, PartialEq)]
pub struct FunctionDecl {
    pub name: String,
    pub arg_types: Vec<Option<String>>,
    pub out_type: Option<String>,
    pub private: bool,
    pub destructor: bool,
    pub ac: bool,
    pub ndc: bool,
    pub ndc_diff: bool,
}

pub struct FunctionDeclM {
    pub name: Seq<char>,
    pub arg_types: Seq<Option<Seq<char>>>,
    pub out_type: Option<Seq<char>>,
    pub private: bool,
    pub destructor: bool,
    pub ac: bool,
    pub ndc: bool,
    pub ndc_diff: bool,
}

impl DeepView for FunctionDecl {
    type V = FunctionDeclM;

    open spec fn deep_view(&self) -> FunctionDeclM {
        FunctionDeclM {
            name: self.name@,
            arg_types: self.arg_types.deep_view(),
            out_type: self.out_type.deep_view(),
            private: self.private,
            destructor: self.destructor,
            ac: self.ac,
            ndc: self.ndc,
            ndc_diff: self.ndc_diff,
        }
    }
}

/// An equation of the theory.
#[derive(Debug, PartialEq)]
pub struct Equation {
    pub lhs: Term,
    pub rhs: Term,
}

pub struct EquationM {
    pub lhs: TermM,
    pub rhs: TermM,
}

impl DeepView for Equation {
    type V = EquationM;

    open spec fn deep_view(&self) -> EquationM {
        EquationM { lhs: self.lhs.deep_view(), rhs: self.rhs.deep_view() }
    }
}

/// A macro.
#[derive(Debug, PartialEq)]
pub struct Macro {
    pub name: String,
    pub args: Vec<VarSpec>,
    pub body: Term,
}

pub struct MacroM {
    pub name: Seq<char>,
    pub args: Seq<VarM>,
    pub body: TermM,
}

impl DeepView for Macro {
    type V = MacroM;

    open spec fn deep_view(&self) -> MacroM {
        MacroM {
            name: self.name@,
            args: self.args.deep_view(),
            body: self.body.deep_view(),
        }
    }
}

/// A predicate.
#[derive(Debug, PartialEq)]
pub struct Predicate {
    pub fact: Fact,
    pub formula: Formula,
}

pub struct PredicateM {
    pub fact: FactM,
    pub formula: FormulaM,
}

impl DeepView for Predicate {
    type V = PredicateM;

    open spec fn deep_view(&self) -> PredicateM {
        PredicateM { fact: self.fact.deep_view(), formula: self.formula.deep_view() }
    }
}

/// Conditions of `#ifdef`.
#[derive(Debug, PartialEq)]
pub enum FlagFormula {
    Atom(String),
    Not(Box<FlagFormula>),
    And(Box<FlagFormula>, Box<FlagFormula>),
    Or(Box<FlagFormula>, Box<FlagFormula>),
}

pub enum FlagM {
    Atom(Seq<char>),
    Not(Box<FlagM>),
    And(Box<FlagM>, Box<FlagM>),
    Or(Box<FlagM>, Box<FlagM>),
}

/// The model of a flag formula.
pub open spec fn flag_m(f: FlagFormula) -> FlagM
    decreases f,
{
    match f {
        FlagFormula::Atom(s) => FlagM::Atom(s@),
        FlagFormula::Not(a) => FlagM::Not(Box::new(flag_m(*a))),
        FlagFormula::And(a, b) => FlagM::And(Box::new(flag_m(*a)), Box::new(flag_m(*b))),
        FlagFormula::Or(a, b) => FlagM::Or(Box::new(flag_m(*a)), Box::new(flag_m(*b))),
    }
}

impl DeepView for FlagFormula {
    type V = FlagM;

    open spec fn deep_view(&self) -> FlagM {
        flag_m(*self)
    }
}

/// The options a theory may declare.
#[derive(Debug, Clone, Copy, PartialEq, Eq, Structural)]
pub enum DeclarableOption {
    TranslationProgress,
    TranslationAllowPatternLookups,
    TranslationStateOptimisation,
    TranslationAsynchronousChannels,
    TranslationCompressEvents,
}

impl DeclarableOption {
    pub open spec fn text(self) -> Seq<char> {
        match self {
            DeclarableOption::TranslationProgress => "translation-progress"@,
            DeclarableOption::TranslationAllowPatternLookups => {
                "translation-allow-pattern-lookups"@
            },
            DeclarableOption::TranslationStateOptimisation => "translation-state-optimisation"@,
            DeclarableOption::TranslationAsynchronousChannels => {
                "translation-asynchronous-channels"@
            },
            DeclarableOption::TranslationCompressEvents => "translation-compress-events"@,
        }
    }

    /// How the option is written.
    pub fn as_str(self) -> (s: &'static str)
        ensures
            s@ == self.text(),
    {
        match self {
            DeclarableOption::TranslationProgress => "translation-progress",
            DeclarableOption::TranslationAllowPatternLookups => "translation-allow-pattern-lookups",
            DeclarableOption::TranslationStateOptimisation => "translation-state-optimisation",
            DeclarableOption::TranslationAsynchronousChannels => {
                "translation-asynchronous-channels"
            },
            DeclarableOption::TranslationCompressEvents => "translation-compress-events",
        }
    }

    /// The options in the order in which they are tried.
    pub open spec fn listed() -> Seq<DeclarableOption> {
        seq![
            DeclarableOption::TranslationProgress,
            DeclarableOption::TranslationAllowPatternLookups,
            DeclarableOption::TranslationStateOptimisation,
            DeclarableOption::TranslationAsynchronousChannels,
            DeclarableOption::TranslationCompressEvents,
        ]
    }

    /// All options.
    pub fn all() -> (v: Vec<DeclarableOption>)
        ensures
            v@ == DeclarableOption::listed(),
    {
        let v = vec![
            DeclarableOption::TranslationProgress,
            DeclarableOption::TranslationAllowPatternLookups,
            DeclarableOption::TranslationStateOptimisation,
            DeclarableOption::TranslationAsynchronousChannels,
            DeclarableOption::TranslationCompressEvents,
        ];
        assert(v@ =~= DeclarableOption::listed());
        v
    }
}

/// The items of a theory.
#[derive(Debug, PartialEq)]
pub enum TheoryItem {
    FormalComment { header: String, body: String },
    Builtins(Vec<String>),
    Options(Vec<String>),
    Functions(Vec<FunctionDecl>),
    Equations { convergent: bool, eqs: Vec<Equation> },
    Macros(Vec<Macro>),
    Predicates(Vec<Predicate>),
    Heuristic { raw: String, source_file: Option<String> },
    Tactic(Tactic),
    Restriction(Restriction),
    LegacyAxiom(Restriction),
    Rule(Rule),
    IntrRule(Rule),
    Lemma(Lemma),
    AccLemma(AccLemma),
    DiffLemma(DiffLemma),
    CaseTest(CaseTest),
    EquivLemma(Process, Process),
    DiffEquivLemma(Process),
    Export { tag: String, body: String },
    TopLevelProcess(Process),
    ProcessDef(ProcessDef),
    Define(String),
    Include(String),
}

pub enum ItemM {
    FormalComment { header: Seq<char>, body: Seq<char> },
    Builtins(Seq<Seq<char>>),
    Options(Seq<Seq<char>>),
    Functions(Seq<FunctionDeclM>),
    Equations { convergent: bool, eqs: Seq<EquationM> },
    Macros(Seq<MacroM>),
    Predicates(Seq<PredicateM>),
    Heuristic { raw: Seq<char>, source_file: Option<Seq<char>> },
    Tactic(TacticM),
    Restriction(RestrictionM),
    LegacyAxiom(RestrictionM),
    Rule(RuleM),
    IntrRule(RuleM),
    Lemma(LemmaM),
    AccLemma(AccLemmaM),
    DiffLemma(DiffLemmaM),
    CaseTest(CaseTestM),
    EquivLemma(ProcessM, ProcessM),
    DiffEquivLemma(ProcessM),
    Export { tag: Seq<char>, body: Seq<char> },
    TopLevelProcess(ProcessM),
    ProcessDef(ProcessDefM),
    Define(Seq<char>),
    Include(Seq<char>),
}

impl DeepView for TheoryItem {
    type V = ItemM;

    open spec fn deep_view(&self) -> ItemM {
        match *self {
            TheoryItem::FormalComment { header, body } => ItemM::FormalComment {
                header: header@,
                body: body@,
            },
            TheoryItem::Builtins(v) => ItemM::Builtins(v.deep_view()),
            TheoryItem::Options(v) => ItemM::Options(v.deep_view()),
            TheoryItem::Functions(v) => ItemM::Functions(v.deep_view()),
            TheoryItem::Equations { convergent, eqs } => ItemM::Equations {
                convergent,
                eqs: eqs.deep_view(),
            },
            TheoryItem::Macros(v) => ItemM::Macros(v.deep_view()),
            TheoryItem::Predicates(v) => ItemM::Predicates(v.deep_view()),
            TheoryItem::Heuristic { raw, source_file } => ItemM::Heuristic {
                raw: raw@,
                source_file: source_file.deep_view(),
            },
            TheoryItem::Tactic(t) => ItemM::Tactic(t.deep_view()),
            TheoryItem::Restriction(r) => ItemM::Restriction(r.deep_view()),
            TheoryItem::LegacyAxiom(r) => ItemM::LegacyAxiom(r.deep_view()),
            TheoryItem::Rule(r) => ItemM::Rule(r.deep_view()),
            TheoryItem::IntrRule(r) => ItemM::IntrRule(r.deep_view()),
            TheoryItem::Lemma(l) => ItemM::Lemma(l.deep_view()),
            TheoryItem::AccLemma(l) => ItemM::AccLemma(l.deep_view()),
            TheoryItem::DiffLemma(l) => ItemM::DiffLemma(l.deep_view()),
            TheoryItem::CaseTest(t) => ItemM::CaseTest(t.deep_view()),
            TheoryItem::EquivLemma(p, q) => ItemM::EquivLemma(p.deep_view(), q.deep_view()),
            TheoryItem::DiffEquivLemma(p) => ItemM::DiffEquivLemma(p.deep_view()),
            TheoryItem::Export { tag, body } => ItemM::Export { tag: tag@, body: body@ },
            TheoryItem::TopLevelProcess(p) => ItemM::TopLevelProcess(p.deep_view()),
            TheoryItem::ProcessDef(d) => ItemM::ProcessDef(d.deep_view()),
            TheoryItem::Define(s) => ItemM::Define(s@),
            TheoryItem::Include(s) => ItemM::Include(s@),
        }
    }
}

/// A theory.
#[derive(Debug, PartialEq)]
pub struct Theory {
    pub is_diff: bool,
    pub name: String,
    pub configuration: Option<String>,
    pub items: Vec<TheoryItem>,
}

pub struct TheoryM {
    pub is_diff: bool,
    pub name: Seq<char>,
    pub configuration: Option<Seq<char>>,
    pub items: Seq<ItemM>,
}

impl DeepView for Theory {
    type V = TheoryM;

    open spec fn deep_view(&self) -> TheoryM {
        TheoryM {
            is_diff: self.is_diff,
            name: self.name@,
            configuration: self.configuration.deep_view(),
            items: self.items.deep_view(),
        }
    }
}

} // verus!
