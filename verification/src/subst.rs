//! The definitions of a `let` block put into the body of a rule.

use crate::ast::{Atom, AtomM, Fact, FactM, Formula, FormulaM, Term, TermM, VarM, VarSpec};
use crate::model::{no_items, put};
use crate::text::same;
use crate::values::{copy_op, copy_term, copy_var, copy_vars, has_var, same_term};
use vstd::prelude::*;

verus! {

broadcast use crate::ast::group_models;

/// `t` with `val` in the place of every `key`.
pub open spec fn subst_term(t: TermM, key: TermM, val: TermM) -> TermM
    decreases t,
{
    if t == key {
        val
    } else {
        match t {
            TermM::App(f, args) => TermM::App(
                f,
                Seq::new(
                    args.len(),
                    |i: int|
                        if 0 <= i < args.len() {
                            subst_term(args[i], key, val)
                        } else {
                            arbitrary()
                        },
                ),
            ),
            TermM::AlgApp(f, a, b) => TermM::AlgApp(
                f,
                Box::new(subst_term(*a, key, val)),
                Box::new(subst_term(*b, key, val)),
            ),
            TermM::Pair(args) => TermM::Pair(
                Seq::new(
                    args.len(),
                    |i: int|
                        if 0 <= i < args.len() {
                            subst_term(args[i], key, val)
                        } else {
                            arbitrary()
                        },
                ),
            ),
            TermM::Diff(a, b) => TermM::Diff(
                Box::new(subst_term(*a, key, val)),
                Box::new(subst_term(*b, key, val)),
            ),
            TermM::BinOp(op, a, b) => TermM::BinOp(
                op,
                Box::new(subst_term(*a, key, val)),
                Box::new(subst_term(*b, key, val)),
            ),
            TermM::PatMatch(a) => TermM::PatMatch(Box::new(subst_term(*a, key, val))),
            _ => t,
        }
    }
}

pub open spec fn subst_terms(ts: Seq<TermM>, key: TermM, val: TermM) -> Seq<TermM> {
    Seq::new(ts.len(), |i: int| subst_term(ts[i], key, val))
}

pub open spec fn subst_fact(f: FactM, key: TermM, val: TermM) -> FactM {
    FactM { args: subst_terms(f.args, key, val), ..f }
}

pub open spec fn subst_facts(fs: Seq<FactM>, key: TermM, val: TermM) -> Seq<FactM> {
    Seq::new(fs.len(), |i: int| subst_fact(fs[i], key, val))
}

pub open spec fn subst_atom(a: AtomM, key: TermM, val: TermM) -> AtomM {
    match a {
        AtomM::Eq(x, y) => AtomM::Eq(subst_term(x, key, val), subst_term(y, key, val)),
        AtomM::Less(x, y) => AtomM::Less(subst_term(x, key, val), subst_term(y, key, val)),
        AtomM::LessMset(x, y) => AtomM::LessMset(
            subst_term(x, key, val),
            subst_term(y, key, val),
        ),
        AtomM::Subterm(x, y) => AtomM::Subterm(subst_term(x, key, val), subst_term(y, key, val)),
        AtomM::Action(f, t) => AtomM::Action(subst_fact(f, key, val), subst_term(t, key, val)),
        AtomM::Last(t) => AtomM::Last(subst_term(t, key, val)),
        AtomM::Pred(f) => AtomM::Pred(subst_fact(f, key, val)),
    }
}

/// `vs` with `v` behind it, if it does not hold `v` yet.
pub open spec fn with_var(vs: Seq<VarM>, v: VarM) -> Seq<VarM> {
    if vs.contains(v) {
        vs
    } else {
        vs.push(v)
    }
}

/// `out` with the variables of `t` behind it, each once.
pub open spec fn term_vars(t: TermM, out: Seq<VarM>) -> Seq<VarM>
    decreases t, 1int,
{
    match t {
        TermM::Var(v) => with_var(out, v),
        TermM::App(_, args) => terms_vars(args, args.len() as int, out),
        TermM::Pair(args) => terms_vars(args, args.len() as int, out),
        TermM::AlgApp(_, a, b) => term_vars(*b, term_vars(*a, out)),
        TermM::Diff(a, b) => term_vars(*b, term_vars(*a, out)),
        TermM::BinOp(_, a, b) => term_vars(*b, term_vars(*a, out)),
        TermM::PatMatch(a) => term_vars(*a, out),
        _ => out,
    }
}

/// The same for the first `n` of some terms.
pub open spec fn terms_vars(ts: Seq<TermM>, n: int, out: Seq<VarM>) -> Seq<VarM>
    decreases ts, n,
{
    if n <= 0 || n > ts.len() {
        out
    } else {
        term_vars(ts[n - 1], terms_vars(ts, n - 1, out))
    }
}

pub open spec fn atom_vars(a: AtomM, out: Seq<VarM>) -> Seq<VarM> {
    match a {
        AtomM::Eq(x, y) => term_vars(y, term_vars(x, out)),
        AtomM::Less(x, y) => term_vars(y, term_vars(x, out)),
        AtomM::LessMset(x, y) => term_vars(y, term_vars(x, out)),
        AtomM::Subterm(x, y) => term_vars(y, term_vars(x, out)),
        AtomM::Action(f, t) => term_vars(t, terms_vars(f.args, f.args.len() as int, out)),
        AtomM::Last(t) => term_vars(t, out),
        AtomM::Pred(f) => terms_vars(f.args, f.args.len() as int, out),
    }
}

/// `out` with the first `n` of `vs` behind it, each once.
pub open spec fn with_vars(out: Seq<VarM>, vs: Seq<VarM>, n: int) -> Seq<VarM>
    decreases n,
{
    if n <= 0 || n > vs.len() {
        out
    } else {
        with_var(with_vars(out, vs, n - 1), vs[n - 1])
    }
}

/// `out` with the variables of a formula behind it, bound ones included.
pub open spec fn formula_vars(f: FormulaM, out: Seq<VarM>) -> Seq<VarM>
    decreases f,
{
    match f {
        FormulaM::False => out,
        FormulaM::True => out,
        FormulaM::Atom(a) => atom_vars(a, out),
        FormulaM::Not(a) => formula_vars(*a, out),
        FormulaM::And(a, b) => formula_vars(*b, formula_vars(*a, out)),
        FormulaM::Or(a, b) => formula_vars(*b, formula_vars(*a, out)),
        FormulaM::Implies(a, b) => formula_vars(*b, formula_vars(*a, out)),
        FormulaM::Iff(a, b) => formula_vars(*b, formula_vars(*a, out)),
        FormulaM::Forall(vs, a) => formula_vars(*a, with_vars(out, vs, vs.len() as int)),
        FormulaM::Exists(vs, a) => formula_vars(*a, with_vars(out, vs, vs.len() as int)),
    }
}

/// The largest index among the first `n` variables of the name and sort of
/// `v`; none where there is no such variable.
pub open spec fn top_index(used: Seq<VarM>, v: VarM, n: int) -> Option<u64>
    decreases n,
{
    if n <= 0 || n > used.len() {
        None
    } else {
        let u = used[n - 1];
        let before = top_index(used, v, n - 1);
        if u.name == v.name && u.sort == v.sort {
            match before {
                Some(m) => if u.idx > m {
                    Some(u.idx)
                } else {
                    Some(m)
                },
                None => Some(u.idx),
            }
        } else {
            before
        }
    }
}

/// The index above those of the same name and sort, as far as there is one.
pub open spec fn next_index(used: Seq<VarM>, v: VarM) -> u64 {
    let top = match top_index(used, v, used.len() as int) {
        Some(m) => m,
        None => v.idx,
    };
    if top == u64::MAX {
        top
    } else {
        (top + 1) as u64
    }
}

/// The first index from `i` on that is free.
pub open spec fn free_index(used: Seq<VarM>, v: VarM, i: int) -> int
    decreases used.len() - i,
{
    if i < 0 || i >= used.len() || !used.contains((VarM { idx: i as u64, ..v })) {
        i
    } else {
        free_index(used, v, i + 1)
    }
}

/// A variable like `v` that is not among `used`.
#[verifier::opaque]
pub open spec fn fresh_var(used: Seq<VarM>, v: VarM) -> VarM {
    let above = VarM { idx: next_index(used, v), ..v };
    if used.contains(above) {
        VarM { idx: free_index(used, v, 0) as u64, ..v }
    } else {
        above
    }
}

/// `f` with `new` in the place of the `old` that is bound around it. A
/// quantifier inside that binds `old` again ends its scope.
pub open spec fn rename_bound(f: FormulaM, old_v: VarM, new_v: VarM) -> FormulaM
    decreases f,
{
    match f {
        FormulaM::False => f,
        FormulaM::True => f,
        FormulaM::Atom(a) => FormulaM::Atom(
            subst_atom(a, TermM::Var(old_v), TermM::Var(new_v)),
        ),
        FormulaM::Not(a) => FormulaM::Not(Box::new(rename_bound(*a, old_v, new_v))),
        FormulaM::And(a, b) => FormulaM::And(
            Box::new(rename_bound(*a, old_v, new_v)),
            Box::new(rename_bound(*b, old_v, new_v)),
        ),
        FormulaM::Or(a, b) => FormulaM::Or(
            Box::new(rename_bound(*a, old_v, new_v)),
            Box::new(rename_bound(*b, old_v, new_v)),
        ),
        FormulaM::Implies(a, b) => FormulaM::Implies(
            Box::new(rename_bound(*a, old_v, new_v)),
            Box::new(rename_bound(*b, old_v, new_v)),
        ),
        FormulaM::Iff(a, b) => FormulaM::Iff(
            Box::new(rename_bound(*a, old_v, new_v)),
            Box::new(rename_bound(*b, old_v, new_v)),
        ),
        FormulaM::Forall(vs, a) => if vs.contains(old_v) {
            f
        } else {
            FormulaM::Forall(vs, Box::new(rename_bound(*a, old_v, new_v)))
        },
        FormulaM::Exists(vs, a) => if vs.contains(old_v) {
            f
        } else {
            FormulaM::Exists(vs, Box::new(rename_bound(*a, old_v, new_v)))
        },
    }
}

/// The number of connectives of a formula.
pub open spec fn formula_size(f: FormulaM) -> nat
    decreases f,
{
    match f {
        FormulaM::False => 0,
        FormulaM::True => 0,
        FormulaM::Atom(_) => 0,
        FormulaM::Not(a) => 1 + formula_size(*a),
        FormulaM::And(a, b) => 1 + formula_size(*a) + formula_size(*b),
        FormulaM::Or(a, b) => 1 + formula_size(*a) + formula_size(*b),
        FormulaM::Implies(a, b) => 1 + formula_size(*a) + formula_size(*b),
        FormulaM::Iff(a, b) => 1 + formula_size(*a) + formula_size(*b),
        FormulaM::Forall(_, a) => 1 + formula_size(*a),
        FormulaM::Exists(_, a) => 1 + formula_size(*a),
    }
}

pub proof fn lemma_rename_size(f: FormulaM, old_v: VarM, new_v: VarM)
    ensures
        formula_size(rename_bound(f, old_v, new_v)) == formula_size(f),
    decreases f,
{
    match f {
        FormulaM::Not(a) => lemma_rename_size(*a, old_v, new_v),
        FormulaM::And(a, b) => {
            lemma_rename_size(*a, old_v, new_v);
            lemma_rename_size(*b, old_v, new_v);
        },
        FormulaM::Or(a, b) => {
            lemma_rename_size(*a, old_v, new_v);
            lemma_rename_size(*b, old_v, new_v);
        },
        FormulaM::Implies(a, b) => {
            lemma_rename_size(*a, old_v, new_v);
            lemma_rename_size(*b, old_v, new_v);
        },
        FormulaM::Iff(a, b) => {
            lemma_rename_size(*a, old_v, new_v);
            lemma_rename_size(*b, old_v, new_v);
        },
        FormulaM::Forall(_, a) => lemma_rename_size(*a, old_v, new_v),
        FormulaM::Exists(_, a) => lemma_rename_size(*a, old_v, new_v),
        _ => {},
    }
}

/// A quantifier under way to being freed of clashes: its variables, its body,
/// and the variables that are taken.
pub struct BinderM {
    pub vars: Seq<VarM>,
    pub body: FormulaM,
    pub used: Seq<VarM>,
}

/// The quantifier with its variables from `i` on renamed that are among `repl`.
pub open spec fn freed(q: BinderM, repl: Seq<VarM>, i: int) -> BinderM
    decreases q.vars.len() - i,
{
    if i < 0 || i >= q.vars.len() {
        q
    } else if repl.contains(q.vars[i]) {
        let v = fresh_var(q.used, q.vars[i]);
        freed(
            BinderM {
                vars: q.vars.update(i, v),
                body: rename_bound(q.body, q.vars[i], v),
                used: q.used.push(v),
            },
            repl,
            i + 1,
        )
    } else {
        freed(q, repl, i + 1)
    }
}

pub proof fn lemma_freed_size(q: BinderM, repl: Seq<VarM>, i: int)
    ensures
        formula_size(freed(q, repl, i).body) == formula_size(q.body),
        freed(q, repl, i).vars.len() == q.vars.len(),
    decreases q.vars.len() - i,
{
    if i < 0 || i >= q.vars.len() {
    } else if repl.contains(q.vars[i]) {
        let v = fresh_var(q.used, q.vars[i]);
        lemma_rename_size(q.body, q.vars[i], v);
        lemma_freed_size(
            BinderM {
                vars: q.vars.update(i, v),
                body: rename_bound(q.body, q.vars[i], v),
                used: q.used.push(v),
            },
            repl,
            i + 1,
        );
    } else {
        lemma_freed_size(q, repl, i + 1);
    }
}

/// The quantifier over `vs` and `body`, before a term takes the place of `key`
/// in it: no variable of the term is bound by it any more.
pub open spec fn opened(vs: Seq<VarM>, body: FormulaM, key: VarM, val: TermM) -> BinderM {
    let repl = term_vars(val, Seq::empty());
    let used = with_var(
        with_vars(formula_vars(body, repl), vs, vs.len() as int),
        key,
    );
    freed(BinderM { vars: vs, body, used }, repl, 0)
}

/// `f` with `val` in the place of every free `key`.
pub open spec fn subst_formula(f: FormulaM, key: TermM, val: TermM) -> FormulaM
    decreases formula_size(f),
{
    match f {
        FormulaM::False => f,
        FormulaM::True => f,
        FormulaM::Atom(a) => FormulaM::Atom(subst_atom(a, key, val)),
        FormulaM::Not(a) => FormulaM::Not(Box::new(subst_formula(*a, key, val))),
        FormulaM::And(a, b) => FormulaM::And(
            Box::new(subst_formula(*a, key, val)),
            Box::new(subst_formula(*b, key, val)),
        ),
        FormulaM::Or(a, b) => FormulaM::Or(
            Box::new(subst_formula(*a, key, val)),
            Box::new(subst_formula(*b, key, val)),
        ),
        FormulaM::Implies(a, b) => FormulaM::Implies(
            Box::new(subst_formula(*a, key, val)),
            Box::new(subst_formula(*b, key, val)),
        ),
        FormulaM::Iff(a, b) => FormulaM::Iff(
            Box::new(subst_formula(*a, key, val)),
            Box::new(subst_formula(*b, key, val)),
        ),
        FormulaM::Forall(vs, a) => match key {
            TermM::Var(k) => if vs.contains(k) {
                f
            } else {
                let q = opened(vs, *a, k, val);
                proof {
                    lemma_opened_size(vs, *a, k, val);
                }
                FormulaM::Forall(q.vars, Box::new(subst_formula(q.body, key, val)))
            },
            _ => FormulaM::Forall(vs, Box::new(subst_formula(*a, key, val))),
        },
        FormulaM::Exists(vs, a) => match key {
            TermM::Var(k) => if vs.contains(k) {
                f
            } else {
                let q = opened(vs, *a, k, val);
                proof {
                    lemma_opened_size(vs, *a, k, val);
                }
                FormulaM::Exists(q.vars, Box::new(subst_formula(q.body, key, val)))
            },
            _ => FormulaM::Exists(vs, Box::new(subst_formula(*a, key, val))),
        },
    }
}

pub proof fn lemma_opened_size(vs: Seq<VarM>, body: FormulaM, key: VarM, val: TermM)
    ensures
        formula_size(opened(vs, body, key, val).body) == formula_size(body),
{
    let repl = term_vars(val, Seq::empty());
    let used = with_var(
        with_vars(formula_vars(body, repl), vs, vs.len() as int),
        key,
    );
    lemma_freed_size(BinderM { vars: vs, body, used }, repl, 0);
}

pub open spec fn subst_formulas(fs: Seq<FormulaM>, key: TermM, val: TermM) -> Seq<FormulaM> {
    Seq::new(fs.len(), |i: int| subst_formula(fs[i], key, val))
}

/// The facts under the definitions `bs`; the last one is put in first, so that
/// the earlier ones reach the terms it brings.
pub open spec fn facts_under(fs: Seq<FactM>, bs: Seq<(TermM, TermM)>) -> Seq<FactM>
    decreases bs.len(),
{
    if bs.len() == 0 {
        fs
    } else {
        facts_under(subst_facts(fs, bs.last().0, bs.last().1), bs.drop_last())
    }
}

/// The formulas under the definitions `bs`.
pub open spec fn formulas_under(fs: Seq<FormulaM>, bs: Seq<(TermM, TermM)>) -> Seq<FormulaM>
    decreases bs.len(),
{
    if bs.len() == 0 {
        fs
    } else {
        formulas_under(subst_formulas(fs, bs.last().0, bs.last().1), bs.drop_last())
    }
}

pub fn subst_let_term(t: &Term, key: &Term, val: &Term) -> (r: Term)
    ensures
        r.deep_view() == subst_term(t.deep_view(), key.deep_view(), val.deep_view()),
    decreases t,
{
    if same_term(t, key) {
        return copy_term(val);
    }
    match t {
        Term::App(f, args) => {
            let ts = subst_let_terms(args, key, val);
            assert(ts.deep_view() =~= subst_term(
                t.deep_view(),
                key.deep_view(),
                val.deep_view(),
            )->App_1);
            Term::App(f.clone(), ts)
        },
        Term::AlgApp(f, a, b) => Term::AlgApp(
            f.clone(),
            Box::new(subst_let_term(a, key, val)),
            Box::new(subst_let_term(b, key, val)),
        ),
        Term::Pair(args) => {
            let ts = subst_let_terms(args, key, val);
            assert(ts.deep_view() =~= subst_term(
                t.deep_view(),
                key.deep_view(),
                val.deep_view(),
            )->Pair_0);
            Term::Pair(ts)
        },
        Term::Diff(a, b) => Term::Diff(
            Box::new(subst_let_term(a, key, val)),
            Box::new(subst_let_term(b, key, val)),
        ),
        Term::BinOp(op, a, b) => Term::BinOp(
            copy_op(op),
            Box::new(subst_let_term(a, key, val)),
            Box::new(subst_let_term(b, key, val)),
        ),
        Term::PatMatch(a) => Term::PatMatch(Box::new(subst_let_term(a, key, val))),
        _ => copy_term(t),
    }
}

fn subst_let_terms(ts: &Vec<Term>, key: &Term, val: &Term) -> (r: Vec<Term>)
    ensures
        r.deep_view() == subst_terms(ts.deep_view(), key.deep_view(), val.deep_view()),
    decreases ts,
{
    let mut v = no_items::<Term>();
    let mut i: usize = 0;
    while i < ts.len()
        invariant
            i <= ts@.len(),
            v.deep_view() == subst_terms(
                ts.deep_view(),
                key.deep_view(),
                val.deep_view(),
            ).take(i as int),
        decreases ts@.len() - i,
    {
        let t = subst_let_term(&ts[i], key, val);
        put(&mut v, t);
        i = i + 1;
        assert(v.deep_view() =~= subst_terms(
            ts.deep_view(),
            key.deep_view(),
            val.deep_view(),
        ).take(i as int));
    }
    assert(v.deep_view() =~= subst_terms(ts.deep_view(), key.deep_view(), val.deep_view()));
    v
}

fn subst_let_fact(f: &Fact, key: &Term, val: &Term) -> (r: Fact)
    ensures
        r.deep_view() == subst_fact(f.deep_view(), key.deep_view(), val.deep_view()),
{
    Fact {
        persistent: f.persistent,
        name: f.name.clone(),
        args: subst_let_terms(&f.args, key, val),
        annotations: crate::values::copy_annotations(&f.annotations),
    }
}

fn subst_let_facts(fs: &Vec<Fact>, key: &Term, val: &Term) -> (r: Vec<Fact>)
    ensures
        r.deep_view() == subst_facts(fs.deep_view(), key.deep_view(), val.deep_view()),
{
    let mut v = no_items::<Fact>();
    let mut i: usize = 0;
    while i < fs.len()
        invariant
            i <= fs@.len(),
            v.deep_view() == subst_facts(
                fs.deep_view(),
                key.deep_view(),
                val.deep_view(),
            ).take(i as int),
        decreases fs@.len() - i,
    {
        let f = subst_let_fact(&fs[i], key, val);
        put(&mut v, f);
        i = i + 1;
        assert(v.deep_view() =~= subst_facts(
            fs.deep_view(),
            key.deep_view(),
            val.deep_view(),
        ).take(i as int));
    }
    assert(v.deep_view() =~= subst_facts(fs.deep_view(), key.deep_view(), val.deep_view()));
    v
}

fn subst_let_atom(a: &Atom, key: &Term, val: &Term) -> (r: Atom)
    ensures
        r.deep_view() == subst_atom(a.deep_view(), key.deep_view(), val.deep_view()),
{
    match a {
        Atom::Eq(x, y) => Atom::Eq(subst_let_term(x, key, val), subst_let_term(y, key, val)),
        Atom::Less(x, y) => Atom::Less(subst_let_term(x, key, val), subst_let_term(y, key, val)),
        Atom::LessMset(x, y) => Atom::LessMset(
            subst_let_term(x, key, val),
            subst_let_term(y, key, val),
        ),
        Atom::Subterm(x, y) => Atom::Subterm(
            subst_let_term(x, key, val),
            subst_let_term(y, key, val),
        ),
        Atom::Action(f, t) => Atom::Action(
            subst_let_fact(f, key, val),
            subst_let_term(t, key, val),
        ),
        Atom::Last(t) => Atom::Last(subst_let_term(t, key, val)),
        Atom::Pred(f) => Atom::Pred(subst_let_fact(f, key, val)),
    }
}

fn add_var(out: &mut Vec<VarSpec>, v: &VarSpec)
    ensures
        final(out).deep_view() == with_var(old(out).deep_view(), v.deep_view()),
{
    if !has_var(out, v) {
        put(out, copy_var(v));
    }
}

fn collect_term_vars(t: &Term, out: &mut Vec<VarSpec>)
    ensures
        final(out).deep_view() == term_vars(t.deep_view(), old(out).deep_view()),
    decreases t, 1int,
{
    match t {
        Term::Var(v) => add_var(out, v),
        Term::App(_, args) => collect_terms_vars(args, out),
        Term::Pair(args) => collect_terms_vars(args, out),
        Term::AlgApp(_, a, b) => {
            collect_term_vars(a, out);
            collect_term_vars(b, out);
        },
        Term::Diff(a, b) => {
            collect_term_vars(a, out);
            collect_term_vars(b, out);
        },
        Term::BinOp(_, a, b) => {
            collect_term_vars(a, out);
            collect_term_vars(b, out);
        },
        Term::PatMatch(a) => collect_term_vars(a, out),
        _ => {},
    }
}

fn collect_terms_vars(ts: &Vec<Term>, out: &mut Vec<VarSpec>)
    ensures
        final(out).deep_view() == terms_vars(
            ts.deep_view(),
            ts.deep_view().len() as int,
            old(out).deep_view(),
        ),
    decreases ts, 1int,
{
    let mut i: usize = 0;
    while i < ts.len()
        invariant
            i <= ts@.len(),
            out.deep_view() == terms_vars(ts.deep_view(), i as int, old(out).deep_view()),
        decreases ts@.len() - i,
    {
        collect_term_vars(&ts[i], out);
        i = i + 1;
        assert(ts.deep_view()[i - 1] == ts@[i - 1].deep_view());
    }
}

fn collect_atom_vars(a: &Atom, out: &mut Vec<VarSpec>)
    ensures
        final(out).deep_view() == atom_vars(a.deep_view(), old(out).deep_view()),
{
    match a {
        Atom::Eq(x, y) => {
            collect_term_vars(x, out);
            collect_term_vars(y, out);
        },
        Atom::Less(x, y) => {
            collect_term_vars(x, out);
            collect_term_vars(y, out);
        },
        Atom::LessMset(x, y) => {
            collect_term_vars(x, out);
            collect_term_vars(y, out);
        },
        Atom::Subterm(x, y) => {
            collect_term_vars(x, out);
            collect_term_vars(y, out);
        },
        Atom::Action(f, t) => {
            collect_terms_vars(&f.args, out);
            collect_term_vars(t, out);
        },
        Atom::Last(t) => collect_term_vars(t, out),
        Atom::Pred(f) => collect_terms_vars(&f.args, out),
    }
}

fn add_vars(out: &mut Vec<VarSpec>, vs: &Vec<VarSpec>)
    ensures
        final(out).deep_view() == with_vars(
            old(out).deep_view(),
            vs.deep_view(),
            vs.deep_view().len() as int,
        ),
{
    let mut i: usize = 0;
    while i < vs.len()
        invariant
            i <= vs@.len(),
            out.deep_view() == with_vars(old(out).deep_view(), vs.deep_view(), i as int),
        decreases vs@.len() - i,
    {
        add_var(out, &vs[i]);
        i = i + 1;
        assert(vs.deep_view()[i - 1] == vs@[i - 1].deep_view());
    }
}

fn collect_formula_vars(f: &Formula, out: &mut Vec<VarSpec>)
    ensures
        final(out).deep_view() == formula_vars(f.deep_view(), old(out).deep_view()),
    decreases f,
{
    match f {
        Formula::False => {},
        Formula::True => {},
        Formula::Atom(a) => collect_atom_vars(a, out),
        Formula::Not(a) => collect_formula_vars(a, out),
        Formula::And(a, b) => {
            collect_formula_vars(a, out);
            collect_formula_vars(b, out);
        },
        Formula::Or(a, b) => {
            collect_formula_vars(a, out);
            collect_formula_vars(b, out);
        },
        Formula::Implies(a, b) => {
            collect_formula_vars(a, out);
            collect_formula_vars(b, out);
        },
        Formula::Iff(a, b) => {
            collect_formula_vars(a, out);
            collect_formula_vars(b, out);
        },
        Formula::Forall(vs, a) => {
            add_vars(out, vs);
            collect_formula_vars(a, out);
        },
        Formula::Exists(vs, a) => {
            add_vars(out, vs);
            collect_formula_vars(a, out);
        },
    }
}

fn highest_index(used: &Vec<VarSpec>, v: &VarSpec) -> (r: Option<u64>)
    ensures
        r == top_index(used.deep_view(), v.deep_view(), used.deep_view().len() as int),
{
    let mut best: Option<u64> = None;
    let mut i: usize = 0;
    while i < used.len()
        invariant
            i <= used@.len(),
            best == top_index(used.deep_view(), v.deep_view(), i as int),
        decreases used@.len() - i,
    {
        let u = &used[i];
        if same(&u.name, &v.name) && u.sort == v.sort {
            best = match best {
                Some(m) => {
                    if u.idx > m {
                        Some(u.idx)
                    } else {
                        Some(m)
                    }
                },
                None => Some(u.idx),
            };
        }
        i = i + 1;
        assert(used.deep_view()[i - 1] == used@[i - 1].deep_view());
    }
    best
}

fn fresh_formula_var(used: &Vec<VarSpec>, v: &VarSpec) -> (r: VarSpec)
    ensures
        r.deep_view() == fresh_var(used.deep_view(), v.deep_view()),
{
    proof {
        reveal(fresh_var);
    }
    let top = match highest_index(used, v) {
        Some(m) => m,
        None => v.idx,
    };
    let mut fresh = copy_var(v);
    fresh.idx = top.saturating_add(1);
    if !has_var(used, &fresh) {
        return fresh;
    }
    let mut i: usize = 0;
    loop
        invariant
            i <= used@.len(),
            fresh.deep_view() == (VarM { idx: fresh.idx, ..v.deep_view() }),
            free_index(used.deep_view(), v.deep_view(), i as int) == free_index(
                used.deep_view(),
                v.deep_view(),
                0,
            ),
            used.deep_view().contains((VarM {
                idx: next_index(used.deep_view(), v.deep_view()),
                ..v.deep_view()
            })),
            fresh_var(used.deep_view(), v.deep_view()) == (VarM {
                idx: free_index(used.deep_view(), v.deep_view(), 0) as u64,
                ..v.deep_view()
            }),
        decreases used@.len() - i,
    {
        fresh.idx = i as u64;
        if i >= used.len() || !has_var(used, &fresh) {
            return fresh;
        }
        i = i + 1;
    }
}

fn rename_bound_formula(f: &Formula, from: &VarSpec, to: &VarSpec) -> (r: Formula)
    ensures
        r.deep_view() == rename_bound(f.deep_view(), from.deep_view(), to.deep_view()),
    decreases f,
{
    match f {
        Formula::False => Formula::False,
        Formula::True => Formula::True,
        Formula::Atom(a) => {
            let key = Term::Var(copy_var(from));
            let val = Term::Var(copy_var(to));
            Formula::Atom(subst_let_atom(a, &key, &val))
        },
        Formula::Not(a) => Formula::Not(Box::new(rename_bound_formula(a, from, to))),
        Formula::And(a, b) => Formula::And(
            Box::new(rename_bound_formula(a, from, to)),
            Box::new(rename_bound_formula(b, from, to)),
        ),
        Formula::Or(a, b) => Formula::Or(
            Box::new(rename_bound_formula(a, from, to)),
            Box::new(rename_bound_formula(b, from, to)),
        ),
        Formula::Implies(a, b) => Formula::Implies(
            Box::new(rename_bound_formula(a, from, to)),
            Box::new(rename_bound_formula(b, from, to)),
        ),
        Formula::Iff(a, b) => Formula::Iff(
            Box::new(rename_bound_formula(a, from, to)),
            Box::new(rename_bound_formula(b, from, to)),
        ),
        Formula::Forall(vs, a) => {
            if has_var(vs, from) {
                crate::values::copy_formula(f)
            } else {
                Formula::Forall(copy_vars(vs), Box::new(rename_bound_formula(a, from, to)))
            }
        },
        Formula::Exists(vs, a) => {
            if has_var(vs, from) {
                crate::values::copy_formula(f)
            } else {
                Formula::Exists(copy_vars(vs), Box::new(rename_bound_formula(a, from, to)))
            }
        },
    }
}

/// The quantifier freed of the variables of `val`.
fn open_binder(vs: &Vec<VarSpec>, body: &Formula, key: &VarSpec, val: &Term) -> (r: (
    Vec<VarSpec>,
    Formula,
))
    ensures
        r.0.deep_view() == opened(
            vs.deep_view(),
            body.deep_view(),
            key.deep_view(),
            val.deep_view(),
        ).vars,
        r.1.deep_view() == opened(
            vs.deep_view(),
            body.deep_view(),
            key.deep_view(),
            val.deep_view(),
        ).body,
{
    let mut repl = no_items::<VarSpec>();
    collect_term_vars(val, &mut repl);
    let mut used = copy_vars(&repl);
    collect_formula_vars(body, &mut used);
    add_vars(&mut used, vs);
    add_var(&mut used, key);
    let mut vars = copy_vars(vs);
    let mut body = crate::values::copy_formula(body);
    let ghost target = freed(
        BinderM { vars: vars.deep_view(), body: body.deep_view(), used: used.deep_view() },
        repl.deep_view(),
        0,
    );
    let mut i: usize = 0;
    while i < vars.len()
        invariant
            i <= vars@.len(),
            freed(
                BinderM { vars: vars.deep_view(), body: body.deep_view(), used: used.deep_view() },
                repl.deep_view(),
                i as int,
            ) == target,
        decreases vars@.len() - i,
    {
        assert(vars.deep_view()[i as int] == vars@[i as int].deep_view());
        if has_var(&repl, &vars[i]) {
            let fresh = fresh_formula_var(&used, &vars[i]);
            body = rename_bound_formula(&body, &vars[i], &fresh);
            put(&mut used, copy_var(&fresh));
            let ghost before = vars.deep_view();
            vars.set(i, fresh);
            assert(vars.deep_view() =~= before.update(i as int, fresh.deep_view()));
        }
        i = i + 1;
    }
    (vars, body)
}

pub fn subst_let_formula(f: &Formula, key: &Term, val: &Term) -> (r: Formula)
    ensures
        r.deep_view() == subst_formula(f.deep_view(), key.deep_view(), val.deep_view()),
    decreases formula_size(f.deep_view()),
{
    match f {
        Formula::False => Formula::False,
        Formula::True => Formula::True,
        Formula::Atom(a) => Formula::Atom(subst_let_atom(a, key, val)),
        Formula::Not(a) => Formula::Not(Box::new(subst_let_formula(a, key, val))),
        Formula::And(a, b) => Formula::And(
            Box::new(subst_let_formula(a, key, val)),
            Box::new(subst_let_formula(b, key, val)),
        ),
        Formula::Or(a, b) => Formula::Or(
            Box::new(subst_let_formula(a, key, val)),
            Box::new(subst_let_formula(b, key, val)),
        ),
        Formula::Implies(a, b) => Formula::Implies(
            Box::new(subst_let_formula(a, key, val)),
            Box::new(subst_let_formula(b, key, val)),
        ),
        Formula::Iff(a, b) => Formula::Iff(
            Box::new(subst_let_formula(a, key, val)),
            Box::new(subst_let_formula(b, key, val)),
        ),
        Formula::Forall(vs, a) => match key {
            Term::Var(k) => {
                if has_var(vs, k) {
                    return crate::values::copy_formula(f);
                }
                let (vars, body) = open_binder(vs, a, k, val);
                proof {
                    lemma_opened_size(
                        vs.deep_view(),
                        a.deep_view(),
                        k.deep_view(),
                        val.deep_view(),
                    );
                }
                Formula::Forall(vars, Box::new(subst_let_formula(&body, key, val)))
            },
            _ => Formula::Forall(copy_vars(vs), Box::new(subst_let_formula(a, key, val))),
        },
        Formula::Exists(vs, a) => match key {
            Term::Var(k) => {
                if has_var(vs, k) {
                    return crate::values::copy_formula(f);
                }
                let (vars, body) = open_binder(vs, a, k, val);
                proof {
                    lemma_opened_size(
                        vs.deep_view(),
                        a.deep_view(),
                        k.deep_view(),
                        val.deep_view(),
                    );
                }
                Formula::Exists(vars, Box::new(subst_let_formula(&body, key, val)))
            },
            _ => Formula::Exists(copy_vars(vs), Box::new(subst_let_formula(a, key, val))),
        },
    }
}

fn subst_let_formulas(fs: &Vec<Formula>, key: &Term, val: &Term) -> (r: Vec<Formula>)
    ensures
        r.deep_view() == subst_formulas(fs.deep_view(), key.deep_view(), val.deep_view()),
{
    let mut v = no_items::<Formula>();
    let mut i: usize = 0;
    while i < fs.len()
        invariant
            i <= fs@.len(),
            v.deep_view() == subst_formulas(
                fs.deep_view(),
                key.deep_view(),
                val.deep_view(),
            ).take(i as int),
        decreases fs@.len() - i,
    {
        let f = subst_let_formula(&fs[i], key, val);
        put(&mut v, f);
        i = i + 1;
        assert(v.deep_view() =~= subst_formulas(
            fs.deep_view(),
            key.deep_view(),
            val.deep_view(),
        ).take(i as int));
    }
    assert(v.deep_view() =~= subst_formulas(fs.deep_view(), key.deep_view(), val.deep_view()));
    v
}

/// The facts under the definitions.
pub fn let_facts(fs: Vec<Fact>, bs: &Vec<(Term, Term)>) -> (r: Vec<Fact>)
    ensures
        r.deep_view() == facts_under(fs.deep_view(), bs.deep_view()),
{
    let mut v = fs;
    let mut i: usize = bs.len();
    assert(bs.deep_view().take(i as int) =~= bs.deep_view());
    while i > 0
        invariant
            i <= bs@.len(),
            facts_under(v.deep_view(), bs.deep_view().take(i as int)) == facts_under(
                fs.deep_view(),
                bs.deep_view(),
            ),
        decreases i,
    {
        i = i - 1;
        proof {
            let t = bs.deep_view().take(i + 1);
            assert(t.drop_last() =~= bs.deep_view().take(i as int));
            assert(t.last() == bs@[i as int].deep_view());
        }
        v = subst_let_facts(&v, &bs[i].0, &bs[i].1);
    }
    v
}

/// The formulas under the definitions.
pub fn let_formulas(fs: Vec<Formula>, bs: &Vec<(Term, Term)>) -> (r: Vec<Formula>)
    ensures
        r.deep_view() == formulas_under(fs.deep_view(), bs.deep_view()),
{
    let mut v = fs;
    let mut i: usize = bs.len();
    assert(bs.deep_view().take(i as int) =~= bs.deep_view());
    while i > 0
        invariant
            i <= bs@.len(),
            formulas_under(v.deep_view(), bs.deep_view().take(i as int)) == formulas_under(
                fs.deep_view(),
                bs.deep_view(),
            ),
        decreases i,
    {
        i = i - 1;
        proof {
            let t = bs.deep_view().take(i + 1);
            assert(t.drop_last() =~= bs.deep_view().take(i as int));
            assert(t.last() == bs@[i as int].deep_view());
        }
        v = subst_let_formulas(&v, &bs[i].0, &bs[i].1);
    }
    v
}

} // verus!
