//! What is bound where, and that putting a definition into a formula keeps it.

use crate::ast::{AtomM, FactM, FormulaM, TermM, VarM};
use crate::subst::{
    atom_vars, facts_under, formula_size, formula_vars, free_index, freed, fresh_var,
    lemma_opened_size, opened, rename_bound, subst_atom, subst_fact, subst_facts, subst_formula,
    subst_term, subst_terms, term_vars, terms_vars, with_var, with_vars, BinderM,
};
use vstd::prelude::*;

verus! {

/// Whether the variable stands in the term.
pub open spec fn in_term(t: TermM, v: VarM) -> bool
    decreases t,
{
    match t {
        TermM::Var(u) => u == v,
        TermM::App(_, args) => exists|i: int|
            0 <= i < args.len() && in_term(#[trigger] args[i], v),
        TermM::Pair(args) => exists|i: int| 0 <= i < args.len() && in_term(#[trigger] args[i], v),
        TermM::AlgApp(_, a, b) => in_term(*a, v) || in_term(*b, v),
        TermM::Diff(a, b) => in_term(*a, v) || in_term(*b, v),
        TermM::BinOp(_, a, b) => in_term(*a, v) || in_term(*b, v),
        TermM::PatMatch(a) => in_term(*a, v),
        _ => false,
    }
}

pub open spec fn in_terms(ts: Seq<TermM>, v: VarM) -> bool {
    exists|i: int| 0 <= i < ts.len() && in_term(#[trigger] ts[i], v)
}

pub open spec fn in_atom(a: AtomM, v: VarM) -> bool {
    match a {
        AtomM::Eq(x, y) => in_term(x, v) || in_term(y, v),
        AtomM::Less(x, y) => in_term(x, v) || in_term(y, v),
        AtomM::LessMset(x, y) => in_term(x, v) || in_term(y, v),
        AtomM::Subterm(x, y) => in_term(x, v) || in_term(y, v),
        AtomM::Action(f, t) => in_terms(f.args, v) || in_term(t, v),
        AtomM::Last(t) => in_term(t, v),
        AtomM::Pred(f) => in_terms(f.args, v),
    }
}

/// Whether the variable stands in the formula, free, bound, or at a quantifier.
pub open spec fn in_formula(f: FormulaM, v: VarM) -> bool
    decreases f,
{
    match f {
        FormulaM::False => false,
        FormulaM::True => false,
        FormulaM::Atom(a) => in_atom(a, v),
        FormulaM::Not(a) => in_formula(*a, v),
        FormulaM::And(a, b) => in_formula(*a, v) || in_formula(*b, v),
        FormulaM::Or(a, b) => in_formula(*a, v) || in_formula(*b, v),
        FormulaM::Implies(a, b) => in_formula(*a, v) || in_formula(*b, v),
        FormulaM::Iff(a, b) => in_formula(*a, v) || in_formula(*b, v),
        FormulaM::Forall(vs, a) => vs.contains(v) || in_formula(*a, v),
        FormulaM::Exists(vs, a) => vs.contains(v) || in_formula(*a, v),
    }
}

/// The quantifiers around a place, outermost first, each with its variables.
pub type Scope = Seq<Seq<VarM>>;

/// The first index of the variable in the list.
pub open spec fn first_of(vs: Seq<VarM>, v: VarM, i: int) -> int
    decreases vs.len() - i,
{
    if i < 0 || i >= vs.len() || vs[i] == v {
        i
    } else {
        first_of(vs, v, i + 1)
    }
}

/// Which quantifier binds the variable, and as which of its variables; none
/// where the variable is free.
pub open spec fn binder_of(e: Scope, v: VarM) -> Option<(int, int)>
    decreases e.len(),
{
    if e.len() == 0 {
        None
    } else if e.last().contains(v) {
        Some((e.len() - 1, first_of(e.last(), v, 0)))
    } else {
        binder_of(e.drop_last(), v)
    }
}

/// Whether no variable of the term is bound.
pub open spec fn unbound(t: TermM, e: Scope) -> bool {
    forall|v: VarM| in_term(t, v) ==> #[trigger] binder_of(e, v) is None
}

/// Whether `u`, inside `d`, is the term `t`, inside `e`, with `val` in the
/// place of the free variable `k`: a bound variable is bound by the same
/// quantifier, and the variables of `val` are free.
pub open spec fn term_put(t: TermM, e: Scope, u: TermM, d: Scope, k: VarM, val: TermM) -> bool
    decreases t,
{
    match t {
        TermM::Var(v) => if binder_of(e, v) is None && v == k {
            u == val && unbound(val, d)
        } else {
            u matches TermM::Var(w) && binder_of(e, v) == binder_of(d, w) && (binder_of(
                e,
                v,
            ) is None ==> v == w)
        },
        TermM::App(f, xs) => u matches TermM::App(g, ys) && f == g && xs.len() == ys.len()
            && forall|i: int|
            0 <= i < xs.len() ==> term_put(#[trigger] xs[i], e, ys[i], d, k, val),
        TermM::Pair(xs) => u matches TermM::Pair(ys) && xs.len() == ys.len() && forall|i: int|
            0 <= i < xs.len() ==> term_put(#[trigger] xs[i], e, ys[i], d, k, val),
        TermM::AlgApp(f, a, b) => u matches TermM::AlgApp(g, x, y) && f == g && term_put(
            *a,
            e,
            *x,
            d,
            k,
            val,
        ) && term_put(*b, e, *y, d, k, val),
        TermM::Diff(a, b) => u matches TermM::Diff(x, y) && term_put(*a, e, *x, d, k, val)
            && term_put(*b, e, *y, d, k, val),
        TermM::BinOp(f, a, b) => u matches TermM::BinOp(g, x, y) && f == g && term_put(
            *a,
            e,
            *x,
            d,
            k,
            val,
        ) && term_put(*b, e, *y, d, k, val),
        TermM::PatMatch(a) => u matches TermM::PatMatch(x) && term_put(*a, e, *x, d, k, val),
        _ => u == t,
    }
}

pub open spec fn fact_put(f: FactM, e: Scope, g: FactM, d: Scope, k: VarM, val: TermM) -> bool {
    &&& g == (FactM { args: g.args, ..f })
    &&& f.args.len() == g.args.len()
    &&& forall|i: int|
        0 <= i < f.args.len() ==> term_put(#[trigger] f.args[i], e, g.args[i], d, k, val)
}

pub open spec fn atom_put(a: AtomM, e: Scope, b: AtomM, d: Scope, k: VarM, val: TermM) -> bool {
    match a {
        AtomM::Eq(x, y) => b matches AtomM::Eq(p, q) && term_put(x, e, p, d, k, val) && term_put(
            y,
            e,
            q,
            d,
            k,
            val,
        ),
        AtomM::Less(x, y) => b matches AtomM::Less(p, q) && term_put(x, e, p, d, k, val)
            && term_put(y, e, q, d, k, val),
        AtomM::LessMset(x, y) => b matches AtomM::LessMset(p, q) && term_put(x, e, p, d, k, val)
            && term_put(y, e, q, d, k, val),
        AtomM::Subterm(x, y) => b matches AtomM::Subterm(p, q) && term_put(x, e, p, d, k, val)
            && term_put(y, e, q, d, k, val),
        AtomM::Action(f, x) => b matches AtomM::Action(g, p) && fact_put(f, e, g, d, k, val)
            && term_put(x, e, p, d, k, val),
        AtomM::Last(x) => b matches AtomM::Last(p) && term_put(x, e, p, d, k, val),
        AtomM::Pred(f) => b matches AtomM::Pred(g) && fact_put(f, e, g, d, k, val),
    }
}

/// Whether `g`, inside `d`, is the formula `f`, inside `e`, with `val` in the
/// place of the free variable `k`, up to the names of bound variables.
pub open spec fn formula_put(
    f: FormulaM,
    e: Scope,
    g: FormulaM,
    d: Scope,
    k: VarM,
    val: TermM,
) -> bool
    decreases f,
{
    match f {
        FormulaM::False => g == f,
        FormulaM::True => g == f,
        FormulaM::Atom(a) => g matches FormulaM::Atom(b) && atom_put(a, e, b, d, k, val),
        FormulaM::Not(a) => g matches FormulaM::Not(x) && formula_put(*a, e, *x, d, k, val),
        FormulaM::And(a, b) => g matches FormulaM::And(x, y) && formula_put(*a, e, *x, d, k, val)
            && formula_put(*b, e, *y, d, k, val),
        FormulaM::Or(a, b) => g matches FormulaM::Or(x, y) && formula_put(*a, e, *x, d, k, val)
            && formula_put(*b, e, *y, d, k, val),
        FormulaM::Implies(a, b) => g matches FormulaM::Implies(x, y) && formula_put(
            *a,
            e,
            *x,
            d,
            k,
            val,
        ) && formula_put(*b, e, *y, d, k, val),
        FormulaM::Iff(a, b) => g matches FormulaM::Iff(x, y) && formula_put(*a, e, *x, d, k, val)
            && formula_put(*b, e, *y, d, k, val),
        FormulaM::Forall(vs, a) => g matches FormulaM::Forall(ws, x) && vs.len() == ws.len()
            && formula_put(*a, e.push(vs), *x, d.push(ws), k, val),
        FormulaM::Exists(vs, a) => g matches FormulaM::Exists(ws, x) && vs.len() == ws.len()
            && formula_put(*a, e.push(vs), *x, d.push(ws), k, val),
    }
}

/// How often variables are written in the term.
pub open spec fn term_weight(t: TermM) -> nat
    decreases t, 1int,
{
    match t {
        TermM::Var(_) => 1,
        TermM::App(_, args) => terms_weight(args, args.len() as int),
        TermM::Pair(args) => terms_weight(args, args.len() as int),
        TermM::AlgApp(_, a, b) => term_weight(*a) + term_weight(*b),
        TermM::Diff(a, b) => term_weight(*a) + term_weight(*b),
        TermM::BinOp(_, a, b) => term_weight(*a) + term_weight(*b),
        TermM::PatMatch(a) => term_weight(*a),
        _ => 0,
    }
}

pub open spec fn terms_weight(ts: Seq<TermM>, n: int) -> nat
    decreases ts, n,
{
    if n <= 0 || n > ts.len() {
        0
    } else {
        terms_weight(ts, n - 1) + term_weight(ts[n - 1])
    }
}

pub open spec fn atom_weight(a: AtomM) -> nat {
    match a {
        AtomM::Eq(x, y) => term_weight(x) + term_weight(y),
        AtomM::Less(x, y) => term_weight(x) + term_weight(y),
        AtomM::LessMset(x, y) => term_weight(x) + term_weight(y),
        AtomM::Subterm(x, y) => term_weight(x) + term_weight(y),
        AtomM::Action(f, t) => terms_weight(f.args, f.args.len() as int) + term_weight(t),
        AtomM::Last(t) => term_weight(t),
        AtomM::Pred(f) => terms_weight(f.args, f.args.len() as int),
    }
}

/// How often variables are written in the formula.
pub open spec fn formula_weight(f: FormulaM) -> nat
    decreases f,
{
    match f {
        FormulaM::False => 0,
        FormulaM::True => 0,
        FormulaM::Atom(a) => atom_weight(a),
        FormulaM::Not(a) => formula_weight(*a),
        FormulaM::And(a, b) => formula_weight(*a) + formula_weight(*b),
        FormulaM::Or(a, b) => formula_weight(*a) + formula_weight(*b),
        FormulaM::Implies(a, b) => formula_weight(*a) + formula_weight(*b),
        FormulaM::Iff(a, b) => formula_weight(*a) + formula_weight(*b),
        FormulaM::Forall(vs, a) => vs.len() + formula_weight(*a),
        FormulaM::Exists(vs, a) => vs.len() + formula_weight(*a),
    }
}

proof fn lemma_term_vars(t: TermM, out: Seq<VarM>)
    ensures
        forall|v: VarM| #[trigger]
            term_vars(t, out).contains(v) <==> out.contains(v) || in_term(t, v),
        term_vars(t, out).len() <= out.len() + term_weight(t),
    decreases t, 1int,
{
    match t {
        TermM::Var(u) => {
            lemma_with_var(out, u);
            assert forall|v: VarM| #[trigger]
                term_vars(t, out).contains(v) <==> out.contains(v) || in_term(t, v) by {
                assert(with_var(out, u).contains(v) <==> out.contains(v) || v == u);
            }
        },
        TermM::App(_, args) => {
            lemma_terms_vars(args, args.len() as int, out);
        },
        TermM::Pair(args) => {
            lemma_terms_vars(args, args.len() as int, out);
        },
        TermM::AlgApp(_, a, b) => {
            lemma_term_vars(*a, out);
            lemma_term_vars(*b, term_vars(*a, out));
        },
        TermM::Diff(a, b) => {
            lemma_term_vars(*a, out);
            lemma_term_vars(*b, term_vars(*a, out));
        },
        TermM::BinOp(_, a, b) => {
            lemma_term_vars(*a, out);
            lemma_term_vars(*b, term_vars(*a, out));
        },
        TermM::PatMatch(a) => {
            lemma_term_vars(*a, out);
        },
        _ => {},
    }
}

proof fn lemma_with_var(vs: Seq<VarM>, u: VarM)
    ensures
        forall|v: VarM| #[trigger] with_var(vs, u).contains(v) <==> vs.contains(v) || v == u,
        with_var(vs, u).len() <= vs.len() + 1,
{
    assert forall|v: VarM| #[trigger] with_var(vs, u).contains(v) <==> vs.contains(v) || v
        == u by {
        if !vs.contains(u) {
            lemma_push_contains(vs, u, v);
        }
    }
}

proof fn lemma_push_contains<A>(s: Seq<A>, x: A, y: A)
    ensures
        s.push(x).contains(y) <==> s.contains(y) || x == y,
{
    if s.contains(y) {
        let i = choose|i: int| 0 <= i < s.len() && s[i] == y;
        assert(s.push(x)[i] == y);
    }
    assert(s.push(x)[s.len() as int] == x);
}

proof fn lemma_terms_vars(ts: Seq<TermM>, n: int, out: Seq<VarM>)
    requires
        0 <= n <= ts.len(),
    ensures
        forall|v: VarM| #[trigger]
            terms_vars(ts, n, out).contains(v) <==> out.contains(v) || exists|i: int|
                0 <= i < n && in_term(#[trigger] ts[i], v),
        terms_vars(ts, n, out).len() <= out.len() + terms_weight(ts, n),
    decreases ts, n,
{
    if n > 0 {
        lemma_terms_vars(ts, n - 1, out);
        lemma_term_vars(ts[n - 1], terms_vars(ts, n - 1, out));
        assert forall|v: VarM| #[trigger]
            terms_vars(ts, n, out).contains(v) <==> out.contains(v) || exists|i: int|
                0 <= i < n && in_term(#[trigger] ts[i], v) by {
            if in_term(ts[n - 1], v) {
            } else if exists|i: int| 0 <= i < n && in_term(#[trigger] ts[i], v) {
                let i = choose|i: int| 0 <= i < n && in_term(#[trigger] ts[i], v);
                assert(0 <= i < n - 1);
            }
        }
    }
}

proof fn lemma_atom_vars(a: AtomM, out: Seq<VarM>)
    ensures
        forall|v: VarM| #[trigger]
            atom_vars(a, out).contains(v) <==> out.contains(v) || in_atom(a, v),
        atom_vars(a, out).len() <= out.len() + atom_weight(a),
{
    match a {
        AtomM::Eq(x, y) => {
            lemma_term_vars(x, out);
            lemma_term_vars(y, term_vars(x, out));
        },
        AtomM::Less(x, y) => {
            lemma_term_vars(x, out);
            lemma_term_vars(y, term_vars(x, out));
        },
        AtomM::LessMset(x, y) => {
            lemma_term_vars(x, out);
            lemma_term_vars(y, term_vars(x, out));
        },
        AtomM::Subterm(x, y) => {
            lemma_term_vars(x, out);
            lemma_term_vars(y, term_vars(x, out));
        },
        AtomM::Action(f, t) => {
            lemma_terms_vars(f.args, f.args.len() as int, out);
            lemma_term_vars(t, terms_vars(f.args, f.args.len() as int, out));
        },
        AtomM::Last(t) => {
            lemma_term_vars(t, out);
        },
        AtomM::Pred(f) => {
            lemma_terms_vars(f.args, f.args.len() as int, out);
        },
    }
}

proof fn lemma_with_vars(out: Seq<VarM>, vs: Seq<VarM>, n: int)
    requires
        0 <= n <= vs.len(),
    ensures
        forall|v: VarM| #[trigger]
            with_vars(out, vs, n).contains(v) <==> out.contains(v) || vs.take(n).contains(v),
        with_vars(out, vs, n).len() <= out.len() + n,
    decreases n,
{
    if n > 0 {
        lemma_with_vars(out, vs, n - 1);
        lemma_with_var(with_vars(out, vs, n - 1), vs[n - 1]);
        assert(vs.take(n) =~= vs.take(n - 1).push(vs[n - 1]));
        assert forall|v: VarM| #[trigger]
            with_vars(out, vs, n).contains(v) <==> out.contains(v) || vs.take(n).contains(v) by {
            lemma_push_contains(vs.take(n - 1), vs[n - 1], v);
        }
    } else {
        assert forall|v: VarM| !vs.take(0).contains(v) by {}
    }
}

proof fn lemma_formula_vars(f: FormulaM, out: Seq<VarM>)
    ensures
        forall|v: VarM| #[trigger]
            formula_vars(f, out).contains(v) <==> out.contains(v) || in_formula(f, v),
        formula_vars(f, out).len() <= out.len() + formula_weight(f),
    decreases f,
{
    match f {
        FormulaM::False => {},
        FormulaM::True => {},
        FormulaM::Atom(a) => lemma_atom_vars(a, out),
        FormulaM::Not(a) => lemma_formula_vars(*a, out),
        FormulaM::And(a, b) => {
            lemma_formula_vars(*a, out);
            lemma_formula_vars(*b, formula_vars(*a, out));
        },
        FormulaM::Or(a, b) => {
            lemma_formula_vars(*a, out);
            lemma_formula_vars(*b, formula_vars(*a, out));
        },
        FormulaM::Implies(a, b) => {
            lemma_formula_vars(*a, out);
            lemma_formula_vars(*b, formula_vars(*a, out));
        },
        FormulaM::Iff(a, b) => {
            lemma_formula_vars(*a, out);
            lemma_formula_vars(*b, formula_vars(*a, out));
        },
        FormulaM::Forall(vs, a) => {
            lemma_with_vars(out, vs, vs.len() as int);
            assert(vs.take(vs.len() as int) =~= vs);
            lemma_formula_vars(*a, with_vars(out, vs, vs.len() as int));
        },
        FormulaM::Exists(vs, a) => {
            lemma_with_vars(out, vs, vs.len() as int);
            assert(vs.take(vs.len() as int) =~= vs);
            lemma_formula_vars(*a, with_vars(out, vs, vs.len() as int));
        },
    }
}

proof fn lemma_free_index(used: Seq<VarM>, v: VarM, i: int)
    requires
        0 <= i <= used.len(),
        used.len() <= u64::MAX,
        forall|j: int| 0 <= j < i ==> used.contains(#[trigger] indexed(v, j)),
    ensures
        0 <= free_index(used, v, i) <= used.len(),
        !used.contains(indexed(v, free_index(used, v, i))),
    decreases used.len() - i,
{
    if i == used.len() {
        if used.contains(indexed(v, i)) {
            let names = Seq::new((i + 1) as nat, |j: int| indexed(v, j));
            assert(names.no_duplicates());
            names.unique_seq_to_set();
            used.lemma_cardinality_of_set();
            assert forall|x: VarM| names.to_set().contains(x) implies used.to_set().contains(
                x,
            ) by {
                let j = choose|j: int| 0 <= j < names.len() && names[j] == x;
                assert(names[j] == indexed(v, j));
            }
            vstd::set_lib::lemma_len_subset(names.to_set(), used.to_set());
        }
    } else if used.contains(indexed(v, i)) {
        lemma_free_index(used, v, i + 1);
    }
}

/// The variable with another index.
pub open spec fn indexed(v: VarM, i: int) -> VarM {
    VarM { idx: i as u64, ..v }
}

/// The variable that is chosen in the place of another is new.
pub proof fn lemma_fresh(used: Seq<VarM>, v: VarM)
    requires
        used.len() <= u64::MAX,
    ensures
        !used.contains(fresh_var(used, v)),
{
    reveal(fresh_var);
    lemma_free_index(used, v, 0);
}

/// Whether two places in formulas differ in the names of bound variables
/// only: `v` at the one is what `w` is at the other.
pub open spec fn same_var_at(v: VarM, e: Scope, w: VarM, d: Scope) -> bool {
    binder_of(e, v) == binder_of(d, w) && (binder_of(e, v) is None ==> v == w)
}

/// Whether `u`, inside `d`, is the term `t`, inside `e`, up to the names of
/// bound variables.
pub open spec fn term_like(t: TermM, e: Scope, u: TermM, d: Scope) -> bool
    decreases t,
{
    match t {
        TermM::Var(v) => u matches TermM::Var(w) && same_var_at(v, e, w, d),
        TermM::App(f, xs) => u matches TermM::App(g, ys) && f == g && xs.len() == ys.len()
            && forall|i: int| 0 <= i < xs.len() ==> term_like(#[trigger] xs[i], e, ys[i], d),
        TermM::Pair(xs) => u matches TermM::Pair(ys) && xs.len() == ys.len() && forall|i: int|
            0 <= i < xs.len() ==> term_like(#[trigger] xs[i], e, ys[i], d),
        TermM::AlgApp(f, a, b) => u matches TermM::AlgApp(g, x, y) && f == g && term_like(
            *a,
            e,
            *x,
            d,
        ) && term_like(*b, e, *y, d),
        TermM::Diff(a, b) => u matches TermM::Diff(x, y) && term_like(*a, e, *x, d) && term_like(
            *b,
            e,
            *y,
            d,
        ),
        TermM::BinOp(f, a, b) => u matches TermM::BinOp(g, x, y) && f == g && term_like(
            *a,
            e,
            *x,
            d,
        ) && term_like(*b, e, *y, d),
        TermM::PatMatch(a) => u matches TermM::PatMatch(x) && term_like(*a, e, *x, d),
        _ => u == t,
    }
}

pub open spec fn fact_like(f: FactM, e: Scope, g: FactM, d: Scope) -> bool {
    &&& g == (FactM { args: g.args, ..f })
    &&& f.args.len() == g.args.len()
    &&& forall|i: int|
        0 <= i < f.args.len() ==> term_like(#[trigger] f.args[i], e, g.args[i], d)
}

pub open spec fn atom_like(a: AtomM, e: Scope, b: AtomM, d: Scope) -> bool {
    match a {
        AtomM::Eq(x, y) => b matches AtomM::Eq(p, q) && term_like(x, e, p, d) && term_like(
            y,
            e,
            q,
            d,
        ),
        AtomM::Less(x, y) => b matches AtomM::Less(p, q) && term_like(x, e, p, d) && term_like(
            y,
            e,
            q,
            d,
        ),
        AtomM::LessMset(x, y) => b matches AtomM::LessMset(p, q) && term_like(x, e, p, d)
            && term_like(y, e, q, d),
        AtomM::Subterm(x, y) => b matches AtomM::Subterm(p, q) && term_like(x, e, p, d)
            && term_like(y, e, q, d),
        AtomM::Action(f, x) => b matches AtomM::Action(g, p) && fact_like(f, e, g, d)
            && term_like(x, e, p, d),
        AtomM::Last(x) => b matches AtomM::Last(p) && term_like(x, e, p, d),
        AtomM::Pred(f) => b matches AtomM::Pred(g) && fact_like(f, e, g, d),
    }
}

/// Whether `g`, inside `d`, is the formula `f`, inside `e`, up to the names of
/// bound variables.
pub open spec fn formula_like(f: FormulaM, e: Scope, g: FormulaM, d: Scope) -> bool
    decreases f,
{
    match f {
        FormulaM::False => g == f,
        FormulaM::True => g == f,
        FormulaM::Atom(a) => g matches FormulaM::Atom(b) && atom_like(a, e, b, d),
        FormulaM::Not(a) => g matches FormulaM::Not(x) && formula_like(*a, e, *x, d),
        FormulaM::And(a, b) => g matches FormulaM::And(x, y) && formula_like(*a, e, *x, d)
            && formula_like(*b, e, *y, d),
        FormulaM::Or(a, b) => g matches FormulaM::Or(x, y) && formula_like(*a, e, *x, d)
            && formula_like(*b, e, *y, d),
        FormulaM::Implies(a, b) => g matches FormulaM::Implies(x, y) && formula_like(*a, e, *x, d)
            && formula_like(*b, e, *y, d),
        FormulaM::Iff(a, b) => g matches FormulaM::Iff(x, y) && formula_like(*a, e, *x, d)
            && formula_like(*b, e, *y, d),
        FormulaM::Forall(vs, a) => g matches FormulaM::Forall(ws, x) && vs.len() == ws.len()
            && formula_like(*a, e.push(vs), *x, d.push(ws)),
        FormulaM::Exists(vs, a) => g matches FormulaM::Exists(ws, x) && vs.len() == ws.len()
            && formula_like(*a, e.push(vs), *x, d.push(ws)),
    }
}

/// Whether the variables of the formula are bound alike in the two scopes.
pub open spec fn agree_on(f: FormulaM, e: Scope, d: Scope) -> bool {
    e.len() == d.len() && forall|v: VarM|
        in_formula(f, v) ==> #[trigger] binder_of(e, v) == binder_of(d, v)
}

proof fn lemma_push_binder(e: Scope, vs: Seq<VarM>, v: VarM)
    ensures
        binder_of(e.push(vs), v) == if vs.contains(v) {
            Some((e.len() as int, first_of(vs, v, 0)))
        } else {
            binder_of(e, v)
        },
{
    assert(e.push(vs).drop_last() =~= e);
}

proof fn lemma_first_of(vs: Seq<VarM>, v: VarM, i: int)
    requires
        0 <= i <= vs.len(),
        forall|j: int| 0 <= j < i ==> vs[j] != v,
        vs.contains(v),
    ensures
        i <= first_of(vs, v, i) < vs.len(),
        vs[first_of(vs, v, i)] == v,
        forall|j: int| 0 <= j < first_of(vs, v, i) ==> vs[j] != v,
    decreases vs.len() - i,
{
    if i < vs.len() && vs[i] != v {
        lemma_first_of(vs, v, i + 1);
    } else if i == vs.len() {
        let j = choose|j: int| 0 <= j < vs.len() && vs[j] == v;
        assert(vs[j] != v);
    }
}

proof fn lemma_first_of_unique(vs: Seq<VarM>, v: VarM, k: int)
    requires
        0 <= k < vs.len(),
        vs[k] == v,
        forall|j: int| 0 <= j < k ==> vs[j] != v,
    ensures
        first_of(vs, v, 0) == k,
{
    lemma_first_of(vs, v, 0);
    let f = first_of(vs, v, 0);
    if f < k {
        assert(vs[f] != v);
    }
}

/// A term is like itself where its variables are bound alike.
proof fn lemma_term_self(t: TermM, e: Scope, d: Scope)
    requires
        forall|v: VarM| in_term(t, v) ==> #[trigger] binder_of(e, v) == binder_of(d, v),
    ensures
        term_like(t, e, t, d),
    decreases t,
{
    match t {
        TermM::Var(v) => {
            assert(in_term(t, v));
            assert(binder_of(e, v) == binder_of(d, v));
        },
        TermM::App(_, xs) => {
            assert forall|i: int| 0 <= i < xs.len() implies term_like(
                #[trigger] xs[i],
                e,
                xs[i],
                d,
            ) by {
                assert forall|v: VarM| in_term(xs[i], v) implies #[trigger] binder_of(e, v)
                    == binder_of(d, v) by {
                    assert(in_term(t, v));
                }
                lemma_term_self(xs[i], e, d);
            }
        },
        TermM::Pair(xs) => {
            assert forall|i: int| 0 <= i < xs.len() implies term_like(
                #[trigger] xs[i],
                e,
                xs[i],
                d,
            ) by {
                assert forall|v: VarM| in_term(xs[i], v) implies #[trigger] binder_of(e, v)
                    == binder_of(d, v) by {
                    assert(in_term(t, v));
                }
                lemma_term_self(xs[i], e, d);
            }
        },
        TermM::AlgApp(_, a, b) => {
            lemma_term_self(*a, e, d);
            lemma_term_self(*b, e, d);
        },
        TermM::Diff(a, b) => {
            lemma_term_self(*a, e, d);
            lemma_term_self(*b, e, d);
        },
        TermM::BinOp(_, a, b) => {
            lemma_term_self(*a, e, d);
            lemma_term_self(*b, e, d);
        },
        TermM::PatMatch(a) => {
            lemma_term_self(*a, e, d);
        },
        _ => {},
    }
}

proof fn lemma_terms_self(ts: Seq<TermM>, e: Scope, d: Scope)
    requires
        forall|v: VarM| in_terms(ts, v) ==> #[trigger] binder_of(e, v) == binder_of(d, v),
    ensures
        forall|i: int| 0 <= i < ts.len() ==> term_like(#[trigger] ts[i], e, ts[i], d),
{
    assert forall|i: int| 0 <= i < ts.len() implies term_like(#[trigger] ts[i], e, ts[i], d) by {
        assert forall|v: VarM| in_term(ts[i], v) implies #[trigger] binder_of(e, v) == binder_of(
            d,
            v,
        ) by {
            assert(in_terms(ts, v));
        }
        lemma_term_self(ts[i], e, d);
    }
}

proof fn lemma_atom_self(a: AtomM, e: Scope, d: Scope)
    requires
        forall|v: VarM| in_atom(a, v) ==> #[trigger] binder_of(e, v) == binder_of(d, v),
    ensures
        atom_like(a, e, a, d),
{
    match a {
        AtomM::Eq(x, y) => {
            lemma_term_self(x, e, d);
            lemma_term_self(y, e, d);
        },
        AtomM::Less(x, y) => {
            lemma_term_self(x, e, d);
            lemma_term_self(y, e, d);
        },
        AtomM::LessMset(x, y) => {
            lemma_term_self(x, e, d);
            lemma_term_self(y, e, d);
        },
        AtomM::Subterm(x, y) => {
            lemma_term_self(x, e, d);
            lemma_term_self(y, e, d);
        },
        AtomM::Action(f, x) => {
            lemma_terms_self(f.args, e, d);
            lemma_term_self(x, e, d);
        },
        AtomM::Last(x) => {
            lemma_term_self(x, e, d);
        },
        AtomM::Pred(f) => {
            lemma_terms_self(f.args, e, d);
        },
    }
}

/// A formula is like itself where its variables are bound alike.
proof fn lemma_formula_self(f: FormulaM, e: Scope, d: Scope)
    requires
        agree_on(f, e, d),
    ensures
        formula_like(f, e, f, d),
    decreases f,
{
    match f {
        FormulaM::False => {},
        FormulaM::True => {},
        FormulaM::Atom(a) => {
            assert forall|v: VarM| in_atom(a, v) implies #[trigger] binder_of(e, v) == binder_of(
                d,
                v,
            ) by {
                assert(in_formula(f, v));
            }
            lemma_atom_self(a, e, d);
        },
        FormulaM::Not(a) => lemma_formula_self(*a, e, d),
        FormulaM::And(a, b) => {
            lemma_formula_self(*a, e, d);
            lemma_formula_self(*b, e, d);
        },
        FormulaM::Or(a, b) => {
            lemma_formula_self(*a, e, d);
            lemma_formula_self(*b, e, d);
        },
        FormulaM::Implies(a, b) => {
            lemma_formula_self(*a, e, d);
            lemma_formula_self(*b, e, d);
        },
        FormulaM::Iff(a, b) => {
            lemma_formula_self(*a, e, d);
            lemma_formula_self(*b, e, d);
        },
        FormulaM::Forall(vs, a) => {
            lemma_agree_below(f, vs, *a, e, d);
            lemma_formula_self(*a, e.push(vs), d.push(vs));
        },
        FormulaM::Exists(vs, a) => {
            lemma_agree_below(f, vs, *a, e, d);
            lemma_formula_self(*a, e.push(vs), d.push(vs));
        },
    }
}

proof fn lemma_agree_below(f: FormulaM, vs: Seq<VarM>, a: FormulaM, e: Scope, d: Scope)
    requires
        agree_on(f, e, d),
        forall|v: VarM| #[trigger] in_formula(a, v) ==> in_formula(f, v),
    ensures
        agree_on(a, e.push(vs), d.push(vs)),
{
    assert forall|v: VarM| in_formula(a, v) implies #[trigger] binder_of(e.push(vs), v)
        == binder_of(d.push(vs), v) by {
        lemma_push_binder(e, vs, v);
        lemma_push_binder(d, vs, v);
        assert(binder_of(e, v) == binder_of(d, v));
    }
}

proof fn lemma_term_chain(t: TermM, e: Scope, u: TermM, d: Scope, w: TermM, c: Scope)
    requires
        term_like(t, e, u, d),
        term_like(u, d, w, c),
    ensures
        term_like(t, e, w, c),
    decreases t,
{
    match t {
        TermM::App(_, xs) => {
            let ys = u->App_1;
            let zs = w->App_1;
            assert forall|i: int| 0 <= i < xs.len() implies term_like(
                #[trigger] xs[i],
                e,
                zs[i],
                c,
            ) by {
                assert(term_like(ys[i], d, zs[i], c));
                lemma_term_chain(xs[i], e, ys[i], d, zs[i], c);
            }
        },
        TermM::Pair(xs) => {
            let ys = u->Pair_0;
            let zs = w->Pair_0;
            assert forall|i: int| 0 <= i < xs.len() implies term_like(
                #[trigger] xs[i],
                e,
                zs[i],
                c,
            ) by {
                assert(term_like(ys[i], d, zs[i], c));
                lemma_term_chain(xs[i], e, ys[i], d, zs[i], c);
            }
        },
        TermM::AlgApp(_, a, b) => {
            lemma_term_chain(*a, e, *u->AlgApp_1, d, *w->AlgApp_1, c);
            lemma_term_chain(*b, e, *u->AlgApp_2, d, *w->AlgApp_2, c);
        },
        TermM::Diff(a, b) => {
            lemma_term_chain(*a, e, *u->Diff_0, d, *w->Diff_0, c);
            lemma_term_chain(*b, e, *u->Diff_1, d, *w->Diff_1, c);
        },
        TermM::BinOp(_, a, b) => {
            lemma_term_chain(*a, e, *u->BinOp_1, d, *w->BinOp_1, c);
            lemma_term_chain(*b, e, *u->BinOp_2, d, *w->BinOp_2, c);
        },
        TermM::PatMatch(a) => {
            lemma_term_chain(*a, e, *u->PatMatch_0, d, *w->PatMatch_0, c);
        },
        _ => {},
    }
}

proof fn lemma_fact_chain(f: FactM, e: Scope, g: FactM, d: Scope, h: FactM, c: Scope)
    requires
        fact_like(f, e, g, d),
        fact_like(g, d, h, c),
    ensures
        fact_like(f, e, h, c),
{
    assert forall|i: int| 0 <= i < f.args.len() implies term_like(
        #[trigger] f.args[i],
        e,
        h.args[i],
        c,
    ) by {
        assert(term_like(g.args[i], d, h.args[i], c));
        lemma_term_chain(f.args[i], e, g.args[i], d, h.args[i], c);
    }
}

proof fn lemma_atom_chain(x: AtomM, e: Scope, y: AtomM, d: Scope, z: AtomM, c: Scope)
    requires
        atom_like(x, e, y, d),
        atom_like(y, d, z, c),
    ensures
        atom_like(x, e, z, c),
{
    match x {
        AtomM::Eq(a, b) => {
            lemma_term_chain(a, e, y->Eq_0, d, z->Eq_0, c);
            lemma_term_chain(b, e, y->Eq_1, d, z->Eq_1, c);
        },
        AtomM::Less(a, b) => {
            lemma_term_chain(a, e, y->Less_0, d, z->Less_0, c);
            lemma_term_chain(b, e, y->Less_1, d, z->Less_1, c);
        },
        AtomM::LessMset(a, b) => {
            lemma_term_chain(a, e, y->LessMset_0, d, z->LessMset_0, c);
            lemma_term_chain(b, e, y->LessMset_1, d, z->LessMset_1, c);
        },
        AtomM::Subterm(a, b) => {
            lemma_term_chain(a, e, y->Subterm_0, d, z->Subterm_0, c);
            lemma_term_chain(b, e, y->Subterm_1, d, z->Subterm_1, c);
        },
        AtomM::Action(f, a) => {
            lemma_fact_chain(f, e, y->Action_0, d, z->Action_0, c);
            lemma_term_chain(a, e, y->Action_1, d, z->Action_1, c);
        },
        AtomM::Last(a) => {
            lemma_term_chain(a, e, y->Last_0, d, z->Last_0, c);
        },
        AtomM::Pred(f) => {
            lemma_fact_chain(f, e, y->Pred_0, d, z->Pred_0, c);
        },
    }
}

proof fn lemma_formula_chain(
    f: FormulaM,
    e: Scope,
    g: FormulaM,
    d: Scope,
    h: FormulaM,
    c: Scope,
)
    requires
        formula_like(f, e, g, d),
        formula_like(g, d, h, c),
    ensures
        formula_like(f, e, h, c),
    decreases f,
{
    match f {
        FormulaM::False => {},
        FormulaM::True => {},
        FormulaM::Atom(a) => lemma_atom_chain(a, e, g->Atom_0, d, h->Atom_0, c),
        FormulaM::Not(a) => lemma_formula_chain(*a, e, *g->Not_0, d, *h->Not_0, c),
        FormulaM::And(a, b) => {
            lemma_formula_chain(*a, e, *g->And_0, d, *h->And_0, c);
            lemma_formula_chain(*b, e, *g->And_1, d, *h->And_1, c);
        },
        FormulaM::Or(a, b) => {
            lemma_formula_chain(*a, e, *g->Or_0, d, *h->Or_0, c);
            lemma_formula_chain(*b, e, *g->Or_1, d, *h->Or_1, c);
        },
        FormulaM::Implies(a, b) => {
            lemma_formula_chain(*a, e, *g->Implies_0, d, *h->Implies_0, c);
            lemma_formula_chain(*b, e, *g->Implies_1, d, *h->Implies_1, c);
        },
        FormulaM::Iff(a, b) => {
            lemma_formula_chain(*a, e, *g->Iff_0, d, *h->Iff_0, c);
            lemma_formula_chain(*b, e, *g->Iff_1, d, *h->Iff_1, c);
        },
        FormulaM::Forall(vs, a) => {
            lemma_formula_chain(
                *a,
                e.push(vs),
                *g->Forall_1,
                d.push(g->Forall_0),
                *h->Forall_1,
                c.push(h->Forall_0),
            );
        },
        FormulaM::Exists(vs, a) => {
            lemma_formula_chain(
                *a,
                e.push(vs),
                *g->Exists_1,
                d.push(g->Exists_0),
                *h->Exists_1,
                c.push(h->Exists_0),
            );
        },
    }
}

/// Whether the two scopes bind all variables alike, but `n` in the second as
/// `o` in the first.
pub open spec fn renamed_scope(e: Scope, d: Scope, o: VarM, n: VarM) -> bool {
    &&& e.len() == d.len()
    &&& binder_of(e, o) is Some
    &&& binder_of(e, o) == binder_of(d, n)
    &&& forall|v: VarM| v != o && v != n ==> #[trigger] binder_of(e, v) == binder_of(d, v)
}

proof fn lemma_rename_term(t: TermM, e: Scope, d: Scope, o: VarM, n: VarM)
    requires
        renamed_scope(e, d, o, n),
        !in_term(t, n),
    ensures
        term_like(t, e, subst_term(t, TermM::Var(o), TermM::Var(n)), d),
    decreases t,
{
    let k = TermM::Var(o);
    let x = TermM::Var(n);
    match t {
        TermM::Var(v) => {
            assert(in_term(t, v));
            assert(v != o ==> binder_of(e, v) == binder_of(d, v));
        },
        TermM::App(_, xs) => {
            let ys = subst_term(t, k, x)->App_1;
            assert forall|i: int| 0 <= i < xs.len() implies term_like(
                #[trigger] xs[i],
                e,
                ys[i],
                d,
            ) by {
                assert(!in_term(xs[i], n));
                lemma_rename_term(xs[i], e, d, o, n);
            }
        },
        TermM::Pair(xs) => {
            let ys = subst_term(t, k, x)->Pair_0;
            assert forall|i: int| 0 <= i < xs.len() implies term_like(
                #[trigger] xs[i],
                e,
                ys[i],
                d,
            ) by {
                assert(!in_term(xs[i], n));
                lemma_rename_term(xs[i], e, d, o, n);
            }
        },
        TermM::AlgApp(_, a, b) => {
            lemma_rename_term(*a, e, d, o, n);
            lemma_rename_term(*b, e, d, o, n);
        },
        TermM::Diff(a, b) => {
            lemma_rename_term(*a, e, d, o, n);
            lemma_rename_term(*b, e, d, o, n);
        },
        TermM::BinOp(_, a, b) => {
            lemma_rename_term(*a, e, d, o, n);
            lemma_rename_term(*b, e, d, o, n);
        },
        TermM::PatMatch(a) => {
            lemma_rename_term(*a, e, d, o, n);
        },
        _ => {},
    }
}

proof fn lemma_rename_fact(f: FactM, e: Scope, d: Scope, o: VarM, n: VarM)
    requires
        renamed_scope(e, d, o, n),
        !in_terms(f.args, n),
    ensures
        fact_like(f, e, subst_fact(f, TermM::Var(o), TermM::Var(n)), d),
{
    let g = subst_fact(f, TermM::Var(o), TermM::Var(n));
    assert forall|i: int| 0 <= i < f.args.len() implies term_like(
        #[trigger] f.args[i],
        e,
        g.args[i],
        d,
    ) by {
        assert(!in_term(f.args[i], n));
        lemma_rename_term(f.args[i], e, d, o, n);
    }
}

proof fn lemma_rename_atom(a: AtomM, e: Scope, d: Scope, o: VarM, n: VarM)
    requires
        renamed_scope(e, d, o, n),
        !in_atom(a, n),
    ensures
        atom_like(a, e, subst_atom(a, TermM::Var(o), TermM::Var(n)), d),
{
    match a {
        AtomM::Eq(x, y) => {
            lemma_rename_term(x, e, d, o, n);
            lemma_rename_term(y, e, d, o, n);
        },
        AtomM::Less(x, y) => {
            lemma_rename_term(x, e, d, o, n);
            lemma_rename_term(y, e, d, o, n);
        },
        AtomM::LessMset(x, y) => {
            lemma_rename_term(x, e, d, o, n);
            lemma_rename_term(y, e, d, o, n);
        },
        AtomM::Subterm(x, y) => {
            lemma_rename_term(x, e, d, o, n);
            lemma_rename_term(y, e, d, o, n);
        },
        AtomM::Action(f, x) => {
            lemma_rename_fact(f, e, d, o, n);
            lemma_rename_term(x, e, d, o, n);
        },
        AtomM::Last(x) => {
            lemma_rename_term(x, e, d, o, n);
        },
        AtomM::Pred(f) => {
            lemma_rename_fact(f, e, d, o, n);
        },
    }
}

proof fn lemma_rename_below(vs: Seq<VarM>, e: Scope, d: Scope, o: VarM, n: VarM)
    requires
        renamed_scope(e, d, o, n),
        !vs.contains(o),
        !vs.contains(n),
    ensures
        renamed_scope(e.push(vs), d.push(vs), o, n),
{
    lemma_push_binder(e, vs, o);
    lemma_push_binder(d, vs, n);
    assert forall|v: VarM| v != o && v != n implies #[trigger] binder_of(e.push(vs), v)
        == binder_of(d.push(vs), v) by {
        lemma_push_binder(e, vs, v);
        lemma_push_binder(d, vs, v);
        assert(binder_of(e, v) == binder_of(d, v));
    }
}

proof fn lemma_rename_stops(
    f: FormulaM,
    vs: Seq<VarM>,
    a: FormulaM,
    e: Scope,
    d: Scope,
    o: VarM,
    n: VarM,
)
    requires
        renamed_scope(e, d, o, n),
        vs.contains(o),
        !in_formula(a, n),
    ensures
        formula_like(a, e.push(vs), a, d.push(vs)),
{
    assert forall|v: VarM| in_formula(a, v) implies #[trigger] binder_of(e.push(vs), v)
        == binder_of(d.push(vs), v) by {
        lemma_push_binder(e, vs, v);
        lemma_push_binder(d, vs, v);
        if v != o {
            assert(binder_of(e, v) == binder_of(d, v));
        }
    }
    lemma_formula_self(a, e.push(vs), d.push(vs));
}

/// Renaming a bound variable to one that stands nowhere in the formula changes
/// nothing but its name.
proof fn lemma_rename_formula(f: FormulaM, e: Scope, d: Scope, o: VarM, n: VarM)
    requires
        renamed_scope(e, d, o, n),
        !in_formula(f, n),
    ensures
        formula_like(f, e, rename_bound(f, o, n), d),
    decreases f,
{
    match f {
        FormulaM::False => {},
        FormulaM::True => {},
        FormulaM::Atom(a) => lemma_rename_atom(a, e, d, o, n),
        FormulaM::Not(a) => lemma_rename_formula(*a, e, d, o, n),
        FormulaM::And(a, b) => {
            lemma_rename_formula(*a, e, d, o, n);
            lemma_rename_formula(*b, e, d, o, n);
        },
        FormulaM::Or(a, b) => {
            lemma_rename_formula(*a, e, d, o, n);
            lemma_rename_formula(*b, e, d, o, n);
        },
        FormulaM::Implies(a, b) => {
            lemma_rename_formula(*a, e, d, o, n);
            lemma_rename_formula(*b, e, d, o, n);
        },
        FormulaM::Iff(a, b) => {
            lemma_rename_formula(*a, e, d, o, n);
            lemma_rename_formula(*b, e, d, o, n);
        },
        FormulaM::Forall(vs, a) => {
            if vs.contains(o) {
                lemma_rename_stops(f, vs, *a, e, d, o, n);
            } else {
                lemma_rename_below(vs, e, d, o, n);
                lemma_rename_formula(*a, e.push(vs), d.push(vs), o, n);
            }
        },
        FormulaM::Exists(vs, a) => {
            if vs.contains(o) {
                lemma_rename_stops(f, vs, *a, e, d, o, n);
            } else {
                lemma_rename_below(vs, e, d, o, n);
                lemma_rename_formula(*a, e.push(vs), d.push(vs), o, n);
            }
        },
    }
}

proof fn lemma_renamed_term(t: TermM, o: VarM, n: VarM, v: VarM)
    requires
        in_term(subst_term(t, TermM::Var(o), TermM::Var(n)), v),
    ensures
        in_term(t, v) || v == n,
    decreases t,
{
    let u = subst_term(t, TermM::Var(o), TermM::Var(n));
    match t {
        TermM::Var(w) => {},
        TermM::App(_, xs) => {
            let ys = u->App_1;
            let i = choose|i: int| 0 <= i < ys.len() && in_term(#[trigger] ys[i], v);
            assert(ys[i] == subst_term(xs[i], TermM::Var(o), TermM::Var(n)));
            lemma_renamed_term(xs[i], o, n, v);
        },
        TermM::Pair(xs) => {
            let ys = u->Pair_0;
            let i = choose|i: int| 0 <= i < ys.len() && in_term(#[trigger] ys[i], v);
            assert(ys[i] == subst_term(xs[i], TermM::Var(o), TermM::Var(n)));
            lemma_renamed_term(xs[i], o, n, v);
        },
        TermM::AlgApp(_, a, b) => {
            if in_term(*u->AlgApp_1, v) {
                lemma_renamed_term(*a, o, n, v);
            } else {
                lemma_renamed_term(*b, o, n, v);
            }
        },
        TermM::Diff(a, b) => {
            if in_term(*u->Diff_0, v) {
                lemma_renamed_term(*a, o, n, v);
            } else {
                lemma_renamed_term(*b, o, n, v);
            }
        },
        TermM::BinOp(_, a, b) => {
            if in_term(*u->BinOp_1, v) {
                lemma_renamed_term(*a, o, n, v);
            } else {
                lemma_renamed_term(*b, o, n, v);
            }
        },
        TermM::PatMatch(a) => {
            lemma_renamed_term(*a, o, n, v);
        },
        _ => {},
    }
}

proof fn lemma_renamed_terms(ts: Seq<TermM>, o: VarM, n: VarM, v: VarM)
    requires
        in_terms(subst_terms(ts, TermM::Var(o), TermM::Var(n)), v),
    ensures
        in_terms(ts, v) || v == n,
{
    let us = subst_terms(ts, TermM::Var(o), TermM::Var(n));
    let i = choose|i: int| 0 <= i < us.len() && in_term(#[trigger] us[i], v);
    assert(us[i] == subst_term(ts[i], TermM::Var(o), TermM::Var(n)));
    lemma_renamed_term(ts[i], o, n, v);
}

proof fn lemma_renamed_atom(a: AtomM, o: VarM, n: VarM, v: VarM)
    requires
        in_atom(subst_atom(a, TermM::Var(o), TermM::Var(n)), v),
    ensures
        in_atom(a, v) || v == n,
{
    let k = TermM::Var(o);
    let x = TermM::Var(n);
    match a {
        AtomM::Eq(p, q) => {
            if in_term(subst_term(p, k, x), v) {
                lemma_renamed_term(p, o, n, v);
            } else {
                lemma_renamed_term(q, o, n, v);
            }
        },
        AtomM::Less(p, q) => {
            if in_term(subst_term(p, k, x), v) {
                lemma_renamed_term(p, o, n, v);
            } else {
                lemma_renamed_term(q, o, n, v);
            }
        },
        AtomM::LessMset(p, q) => {
            if in_term(subst_term(p, k, x), v) {
                lemma_renamed_term(p, o, n, v);
            } else {
                lemma_renamed_term(q, o, n, v);
            }
        },
        AtomM::Subterm(p, q) => {
            if in_term(subst_term(p, k, x), v) {
                lemma_renamed_term(p, o, n, v);
            } else {
                lemma_renamed_term(q, o, n, v);
            }
        },
        AtomM::Action(f, p) => {
            if in_term(subst_term(p, k, x), v) {
                lemma_renamed_term(p, o, n, v);
            } else {
                lemma_renamed_terms(f.args, o, n, v);
            }
        },
        AtomM::Last(p) => {
            lemma_renamed_term(p, o, n, v);
        },
        AtomM::Pred(f) => {
            lemma_renamed_terms(f.args, o, n, v);
        },
    }
}

proof fn lemma_renamed_formula(f: FormulaM, o: VarM, n: VarM, v: VarM)
    requires
        in_formula(rename_bound(f, o, n), v),
    ensures
        in_formula(f, v) || v == n,
    decreases f,
{
    match f {
        FormulaM::Atom(a) => lemma_renamed_atom(a, o, n, v),
        FormulaM::Not(a) => lemma_renamed_formula(*a, o, n, v),
        FormulaM::And(a, b) => {
            if in_formula(rename_bound(*a, o, n), v) {
                lemma_renamed_formula(*a, o, n, v);
            } else {
                lemma_renamed_formula(*b, o, n, v);
            }
        },
        FormulaM::Or(a, b) => {
            if in_formula(rename_bound(*a, o, n), v) {
                lemma_renamed_formula(*a, o, n, v);
            } else {
                lemma_renamed_formula(*b, o, n, v);
            }
        },
        FormulaM::Implies(a, b) => {
            if in_formula(rename_bound(*a, o, n), v) {
                lemma_renamed_formula(*a, o, n, v);
            } else {
                lemma_renamed_formula(*b, o, n, v);
            }
        },
        FormulaM::Iff(a, b) => {
            if in_formula(rename_bound(*a, o, n), v) {
                lemma_renamed_formula(*a, o, n, v);
            } else {
                lemma_renamed_formula(*b, o, n, v);
            }
        },
        FormulaM::Forall(vs, a) => {
            if !vs.contains(o) && !vs.contains(v) {
                lemma_renamed_formula(*a, o, n, v);
            }
        },
        FormulaM::Exists(vs, a) => {
            if !vs.contains(o) && !vs.contains(v) {
                lemma_renamed_formula(*a, o, n, v);
            }
        },
        _ => {},
    }
}

proof fn lemma_weight_term(t: TermM, o: VarM, n: VarM)
    ensures
        term_weight(subst_term(t, TermM::Var(o), TermM::Var(n))) == term_weight(t),
    decreases t, 1int,
{
    let u = subst_term(t, TermM::Var(o), TermM::Var(n));
    match t {
        TermM::App(_, xs) => {
            assert(u->App_1 =~= subst_terms(xs, TermM::Var(o), TermM::Var(n)));
            lemma_weight_terms(xs, xs.len() as int, o, n);
        },
        TermM::Pair(xs) => {
            assert(u->Pair_0 =~= subst_terms(xs, TermM::Var(o), TermM::Var(n)));
            lemma_weight_terms(xs, xs.len() as int, o, n);
        },
        TermM::AlgApp(_, a, b) => {
            lemma_weight_term(*a, o, n);
            lemma_weight_term(*b, o, n);
        },
        TermM::Diff(a, b) => {
            lemma_weight_term(*a, o, n);
            lemma_weight_term(*b, o, n);
        },
        TermM::BinOp(_, a, b) => {
            lemma_weight_term(*a, o, n);
            lemma_weight_term(*b, o, n);
        },
        TermM::PatMatch(a) => {
            lemma_weight_term(*a, o, n);
        },
        _ => {},
    }
}

proof fn lemma_weight_terms(ts: Seq<TermM>, m: int, o: VarM, n: VarM)
    requires
        0 <= m <= ts.len(),
    ensures
        terms_weight(subst_terms(ts, TermM::Var(o), TermM::Var(n)), m) == terms_weight(ts, m),
    decreases ts, m,
{
    if m > 0 {
        lemma_weight_terms(ts, m - 1, o, n);
        lemma_weight_term(ts[m - 1], o, n);
        assert(subst_terms(ts, TermM::Var(o), TermM::Var(n))[m - 1] == subst_term(
            ts[m - 1],
            TermM::Var(o),
            TermM::Var(n),
        ));
    }
}

proof fn lemma_weight_atom(a: AtomM, o: VarM, n: VarM)
    ensures
        atom_weight(subst_atom(a, TermM::Var(o), TermM::Var(n))) == atom_weight(a),
{
    match a {
        AtomM::Eq(x, y) => {
            lemma_weight_term(x, o, n);
            lemma_weight_term(y, o, n);
        },
        AtomM::Less(x, y) => {
            lemma_weight_term(x, o, n);
            lemma_weight_term(y, o, n);
        },
        AtomM::LessMset(x, y) => {
            lemma_weight_term(x, o, n);
            lemma_weight_term(y, o, n);
        },
        AtomM::Subterm(x, y) => {
            lemma_weight_term(x, o, n);
            lemma_weight_term(y, o, n);
        },
        AtomM::Action(f, x) => {
            lemma_weight_terms(f.args, f.args.len() as int, o, n);
            lemma_weight_term(x, o, n);
        },
        AtomM::Last(x) => {
            lemma_weight_term(x, o, n);
        },
        AtomM::Pred(f) => {
            lemma_weight_terms(f.args, f.args.len() as int, o, n);
        },
    }
}

proof fn lemma_weight_formula(f: FormulaM, o: VarM, n: VarM)
    ensures
        formula_weight(rename_bound(f, o, n)) == formula_weight(f),
    decreases f,
{
    match f {
        FormulaM::Atom(a) => lemma_weight_atom(a, o, n),
        FormulaM::Not(a) => lemma_weight_formula(*a, o, n),
        FormulaM::And(a, b) => {
            lemma_weight_formula(*a, o, n);
            lemma_weight_formula(*b, o, n);
        },
        FormulaM::Or(a, b) => {
            lemma_weight_formula(*a, o, n);
            lemma_weight_formula(*b, o, n);
        },
        FormulaM::Implies(a, b) => {
            lemma_weight_formula(*a, o, n);
            lemma_weight_formula(*b, o, n);
        },
        FormulaM::Iff(a, b) => {
            lemma_weight_formula(*a, o, n);
            lemma_weight_formula(*b, o, n);
        },
        FormulaM::Forall(vs, a) => {
            lemma_weight_formula(*a, o, n);
        },
        FormulaM::Exists(vs, a) => {
            lemma_weight_formula(*a, o, n);
        },
        _ => {},
    }
}

/// Whether the variables from `i` on of the quantifier are still to be freed
/// of the variables in `repl`, and all names around it are known.
pub open spec fn to_free(q: BinderM, repl: Seq<VarM>, k: VarM, i: int) -> bool {
    &&& 0 <= i <= q.vars.len()
    &&& forall|j: int| 0 <= j < i ==> !repl.contains(#[trigger] q.vars[j])
    &&& forall|v: VarM|
        in_formula(q.body, v) || q.vars.contains(v) || repl.contains(v) || v == k
            ==> #[trigger] q.used.contains(v)
    &&& !q.vars.contains(k)
    &&& q.used.len() + q.vars.len() - i <= u64::MAX
}

/// The quantifier with its `i`th variable renamed.
pub open spec fn freed_at(q: BinderM, i: int) -> BinderM {
    let n = fresh_var(q.used, q.vars[i]);
    BinderM {
        vars: q.vars.update(i, n),
        body: rename_bound(q.body, q.vars[i], n),
        used: q.used.push(n),
    }
}

proof fn lemma_freed_at(q: BinderM, repl: Seq<VarM>, k: VarM, i: int, d: Scope)
    requires
        to_free(q, repl, k, i),
        i < q.vars.len(),
        repl.contains(q.vars[i]),
    ensures
        to_free(freed_at(q, i), repl, k, i + 1),
        formula_like(q.body, d.push(q.vars), freed_at(q, i).body, d.push(freed_at(q, i).vars)),
        formula_weight(freed_at(q, i).body) == formula_weight(q.body),
{
    let o = q.vars[i];
    let n = fresh_var(q.used, o);
    let r = freed_at(q, i);
    let e1 = d.push(q.vars);
    let e2 = d.push(r.vars);
    lemma_fresh(q.used, o);
    assert(q.vars.contains(o));
    assert(!q.used.contains(n));
    assert(n != o && n != k && !q.vars.contains(n) && !repl.contains(n));
    assert forall|j: int| 0 <= j < i implies #[trigger] q.vars[j] != o by {
        assert(!repl.contains(q.vars[j]));
    }
    lemma_first_of_unique(q.vars, o, i);
    assert forall|j: int| 0 <= j < i implies #[trigger] r.vars[j] != n by {
        assert(q.vars.contains(q.vars[j]));
    }
    lemma_first_of_unique(r.vars, n, i);
    assert(r.vars[i] == n);
    assert(r.vars.contains(n));
    lemma_push_binder(d, q.vars, o);
    lemma_push_binder(d, r.vars, n);
    assert forall|v: VarM| v != o && v != n implies #[trigger] binder_of(e1, v) == binder_of(
        e2,
        v,
    ) by {
        lemma_push_binder(d, q.vars, v);
        lemma_push_binder(d, r.vars, v);
        if q.vars.contains(v) {
            lemma_first_of(q.vars, v, 0);
            let f = first_of(q.vars, v, 0);
            assert(r.vars[f] == v);
            assert forall|j: int| 0 <= j < f implies #[trigger] r.vars[j] != v by {
                assert(q.vars[j] != v);
            }
            lemma_first_of_unique(r.vars, v, f);
        } else if r.vars.contains(v) {
            let j = choose|j: int| 0 <= j < r.vars.len() && r.vars[j] == v;
            assert(q.vars[j] == v);
        }
    }
    lemma_rename_formula(q.body, e1, e2, o, n);
    lemma_weight_formula(q.body, o, n);
    assert forall|j: int| 0 <= j < i + 1 implies !repl.contains(#[trigger] r.vars[j]) by {
        if j < i {
            assert(!repl.contains(q.vars[j]));
        }
    }
    assert forall|v: VarM|
        in_formula(r.body, v) || r.vars.contains(v) || repl.contains(v) || v
            == k implies #[trigger] r.used.contains(v) by {
        lemma_push_contains(q.used, n, v);
        if in_formula(r.body, v) {
            lemma_renamed_formula(q.body, o, n, v);
        } else if r.vars.contains(v) {
            let j = choose|j: int| 0 <= j < r.vars.len() && r.vars[j] == v;
            if j != i {
                assert(q.vars[j] == v);
                assert(q.vars.contains(v));
            }
        }
        if v != n {
            assert(q.used.contains(v));
        }
    }
    if r.vars.contains(k) {
        let j = choose|j: int| 0 <= j < r.vars.len() && r.vars[j] == k;
        assert(q.vars[j] == k);
    }
}

/// Freeing a quantifier of some names changes nothing but the names it binds.
proof fn lemma_freed(q: BinderM, repl: Seq<VarM>, k: VarM, i: int, d: Scope)
    requires
        to_free(q, repl, k, i),
    ensures
        ({
            let r = freed(q, repl, i);
            &&& formula_like(q.body, d.push(q.vars), r.body, d.push(r.vars))
            &&& r.vars.len() == q.vars.len()
            &&& forall|j: int| 0 <= j < r.vars.len() ==> !repl.contains(#[trigger] r.vars[j])
            &&& !r.vars.contains(k)
            &&& formula_weight(r.body) == formula_weight(q.body)
        }),
    decreases q.vars.len() - i,
{
    if i >= q.vars.len() {
        lemma_formula_self(q.body, d.push(q.vars), d.push(q.vars));
    } else if repl.contains(q.vars[i]) {
        let m = freed_at(q, i);
        lemma_freed_at(q, repl, k, i, d);
        lemma_freed(m, repl, k, i + 1, d);
        let r = freed(m, repl, i + 1);
        lemma_formula_chain(
            q.body,
            d.push(q.vars),
            m.body,
            d.push(m.vars),
            r.body,
            d.push(r.vars),
        );
    } else {
        lemma_freed(q, repl, k, i + 1, d);
    }
}

proof fn lemma_opened(vs: Seq<VarM>, body: FormulaM, k: VarM, val: TermM, d: Scope)
    requires
        !vs.contains(k),
        binder_of(d, k) is None,
        unbound(val, d),
        term_weight(val) + 2 * (vs.len() + formula_weight(body)) + 1 <= u64::MAX,
    ensures
        ({
            let r = opened(vs, body, k, val);
            &&& formula_like(body, d.push(vs), r.body, d.push(r.vars))
            &&& r.vars.len() == vs.len()
            &&& binder_of(d.push(r.vars), k) is None
            &&& unbound(val, d.push(r.vars))
            &&& formula_weight(r.body) == formula_weight(body)
        }),
{
    let repl = term_vars(val, Seq::empty());
    let used = with_var(with_vars(formula_vars(body, repl), vs, vs.len() as int), k);
    let q = BinderM { vars: vs, body, used };
    lemma_term_vars(val, Seq::empty());
    lemma_formula_vars(body, repl);
    lemma_with_vars(formula_vars(body, repl), vs, vs.len() as int);
    assert(vs.take(vs.len() as int) =~= vs);
    lemma_with_var(with_vars(formula_vars(body, repl), vs, vs.len() as int), k);
    assert(to_free(q, repl, k, 0)) by {
        assert forall|v: VarM|
            in_formula(q.body, v) || q.vars.contains(v) || repl.contains(v) || v
                == k implies #[trigger] q.used.contains(v) by {
            assert(formula_vars(body, repl).contains(v) <==> repl.contains(v) || in_formula(
                body,
                v,
            ));
            assert(with_vars(formula_vars(body, repl), vs, vs.len() as int).contains(v)
                <==> formula_vars(body, repl).contains(v) || vs.take(vs.len() as int).contains(v));
        }
    }
    lemma_freed(q, repl, k, 0, d);
    let r = freed(q, repl, 0);
    lemma_push_binder(d, r.vars, k);
    assert forall|v: VarM| in_term(val, v) implies #[trigger] binder_of(
        d.push(r.vars),
        v,
    ) is None by {
        lemma_push_binder(d, r.vars, v);
        assert(term_vars(val, Seq::empty()).contains(v));
        if r.vars.contains(v) {
            let j = choose|j: int| 0 <= j < r.vars.len() && r.vars[j] == v;
            assert(!repl.contains(r.vars[j]));
        }
        assert(binder_of(d, v) is None);
    }
}

proof fn lemma_shadow_term(t: TermM, e: Scope, u: TermM, d: Scope, k: VarM, val: TermM)
    requires
        term_like(t, e, u, d),
        binder_of(d, k) is Some,
    ensures
        term_put(t, e, u, d, k, val),
    decreases t,
{
    match t {
        TermM::App(_, xs) => {
            let ys = u->App_1;
            assert forall|i: int| 0 <= i < xs.len() implies term_put(
                #[trigger] xs[i],
                e,
                ys[i],
                d,
                k,
                val,
            ) by {
                assert(term_like(xs[i], e, ys[i], d));
                lemma_shadow_term(xs[i], e, ys[i], d, k, val);
            }
        },
        TermM::Pair(xs) => {
            let ys = u->Pair_0;
            assert forall|i: int| 0 <= i < xs.len() implies term_put(
                #[trigger] xs[i],
                e,
                ys[i],
                d,
                k,
                val,
            ) by {
                assert(term_like(xs[i], e, ys[i], d));
                lemma_shadow_term(xs[i], e, ys[i], d, k, val);
            }
        },
        TermM::AlgApp(_, a, b) => {
            lemma_shadow_term(*a, e, *u->AlgApp_1, d, k, val);
            lemma_shadow_term(*b, e, *u->AlgApp_2, d, k, val);
        },
        TermM::Diff(a, b) => {
            lemma_shadow_term(*a, e, *u->Diff_0, d, k, val);
            lemma_shadow_term(*b, e, *u->Diff_1, d, k, val);
        },
        TermM::BinOp(_, a, b) => {
            lemma_shadow_term(*a, e, *u->BinOp_1, d, k, val);
            lemma_shadow_term(*b, e, *u->BinOp_2, d, k, val);
        },
        TermM::PatMatch(a) => {
            lemma_shadow_term(*a, e, *u->PatMatch_0, d, k, val);
        },
        _ => {},
    }
}

proof fn lemma_shadow_fact(f: FactM, e: Scope, g: FactM, d: Scope, k: VarM, val: TermM)
    requires
        fact_like(f, e, g, d),
        binder_of(d, k) is Some,
    ensures
        fact_put(f, e, g, d, k, val),
{
    assert forall|i: int| 0 <= i < f.args.len() implies term_put(
        #[trigger] f.args[i],
        e,
        g.args[i],
        d,
        k,
        val,
    ) by {
        lemma_shadow_term(f.args[i], e, g.args[i], d, k, val);
    }
}

proof fn lemma_shadow_atom(a: AtomM, e: Scope, b: AtomM, d: Scope, k: VarM, val: TermM)
    requires
        atom_like(a, e, b, d),
        binder_of(d, k) is Some,
    ensures
        atom_put(a, e, b, d, k, val),
{
    match a {
        AtomM::Eq(x, y) => {
            lemma_shadow_term(x, e, b->Eq_0, d, k, val);
            lemma_shadow_term(y, e, b->Eq_1, d, k, val);
        },
        AtomM::Less(x, y) => {
            lemma_shadow_term(x, e, b->Less_0, d, k, val);
            lemma_shadow_term(y, e, b->Less_1, d, k, val);
        },
        AtomM::LessMset(x, y) => {
            lemma_shadow_term(x, e, b->LessMset_0, d, k, val);
            lemma_shadow_term(y, e, b->LessMset_1, d, k, val);
        },
        AtomM::Subterm(x, y) => {
            lemma_shadow_term(x, e, b->Subterm_0, d, k, val);
            lemma_shadow_term(y, e, b->Subterm_1, d, k, val);
        },
        AtomM::Action(f, x) => {
            lemma_shadow_fact(f, e, b->Action_0, d, k, val);
            lemma_shadow_term(x, e, b->Action_1, d, k, val);
        },
        AtomM::Last(x) => {
            lemma_shadow_term(x, e, b->Last_0, d, k, val);
        },
        AtomM::Pred(f) => {
            lemma_shadow_fact(f, e, b->Pred_0, d, k, val);
        },
    }
}

/// Where the variable is bound, nothing takes its place.
proof fn lemma_shadow(f: FormulaM, e: Scope, g: FormulaM, d: Scope, k: VarM, val: TermM)
    requires
        formula_like(f, e, g, d),
        binder_of(d, k) is Some,
    ensures
        formula_put(f, e, g, d, k, val),
    decreases f,
{
    match f {
        FormulaM::Atom(a) => lemma_shadow_atom(a, e, g->Atom_0, d, k, val),
        FormulaM::Not(a) => lemma_shadow(*a, e, *g->Not_0, d, k, val),
        FormulaM::And(a, b) => {
            lemma_shadow(*a, e, *g->And_0, d, k, val);
            lemma_shadow(*b, e, *g->And_1, d, k, val);
        },
        FormulaM::Or(a, b) => {
            lemma_shadow(*a, e, *g->Or_0, d, k, val);
            lemma_shadow(*b, e, *g->Or_1, d, k, val);
        },
        FormulaM::Implies(a, b) => {
            lemma_shadow(*a, e, *g->Implies_0, d, k, val);
            lemma_shadow(*b, e, *g->Implies_1, d, k, val);
        },
        FormulaM::Iff(a, b) => {
            lemma_shadow(*a, e, *g->Iff_0, d, k, val);
            lemma_shadow(*b, e, *g->Iff_1, d, k, val);
        },
        FormulaM::Forall(vs, a) => {
            lemma_push_binder(d, g->Forall_0, k);
            lemma_shadow(*a, e.push(vs), *g->Forall_1, d.push(g->Forall_0), k, val);
        },
        FormulaM::Exists(vs, a) => {
            lemma_push_binder(d, g->Exists_0, k);
            lemma_shadow(*a, e.push(vs), *g->Exists_1, d.push(g->Exists_0), k, val);
        },
        _ => {},
    }
}

proof fn lemma_put_term(t: TermM, e: Scope, u: TermM, d: Scope, k: VarM, val: TermM)
    requires
        term_like(t, e, u, d),
        binder_of(d, k) is None,
        unbound(val, d),
    ensures
        term_put(t, e, subst_term(u, TermM::Var(k), val), d, k, val),
    decreases t,
{
    match t {
        TermM::App(_, xs) => {
            let ys = u->App_1;
            assert forall|i: int| 0 <= i < xs.len() implies term_put(
                #[trigger] xs[i],
                e,
                subst_term(u, TermM::Var(k), val)->App_1[i],
                d,
                k,
                val,
            ) by {
                assert(term_like(xs[i], e, ys[i], d));
                lemma_put_term(xs[i], e, ys[i], d, k, val);
            }
        },
        TermM::Pair(xs) => {
            let ys = u->Pair_0;
            assert forall|i: int| 0 <= i < xs.len() implies term_put(
                #[trigger] xs[i],
                e,
                subst_term(u, TermM::Var(k), val)->Pair_0[i],
                d,
                k,
                val,
            ) by {
                assert(term_like(xs[i], e, ys[i], d));
                lemma_put_term(xs[i], e, ys[i], d, k, val);
            }
        },
        TermM::AlgApp(_, a, b) => {
            lemma_put_term(*a, e, *u->AlgApp_1, d, k, val);
            lemma_put_term(*b, e, *u->AlgApp_2, d, k, val);
        },
        TermM::Diff(a, b) => {
            lemma_put_term(*a, e, *u->Diff_0, d, k, val);
            lemma_put_term(*b, e, *u->Diff_1, d, k, val);
        },
        TermM::BinOp(_, a, b) => {
            lemma_put_term(*a, e, *u->BinOp_1, d, k, val);
            lemma_put_term(*b, e, *u->BinOp_2, d, k, val);
        },
        TermM::PatMatch(a) => {
            lemma_put_term(*a, e, *u->PatMatch_0, d, k, val);
        },
        _ => {},
    }
}

proof fn lemma_put_fact(f: FactM, e: Scope, g: FactM, d: Scope, k: VarM, val: TermM)
    requires
        fact_like(f, e, g, d),
        binder_of(d, k) is None,
        unbound(val, d),
    ensures
        fact_put(f, e, subst_fact(g, TermM::Var(k), val), d, k, val),
{
    let h = subst_fact(g, TermM::Var(k), val);
    assert forall|i: int| 0 <= i < f.args.len() implies term_put(
        #[trigger] f.args[i],
        e,
        h.args[i],
        d,
        k,
        val,
    ) by {
        lemma_put_term(f.args[i], e, g.args[i], d, k, val);
    }
}

proof fn lemma_put_atom(a: AtomM, e: Scope, b: AtomM, d: Scope, k: VarM, val: TermM)
    requires
        atom_like(a, e, b, d),
        binder_of(d, k) is None,
        unbound(val, d),
    ensures
        atom_put(a, e, subst_atom(b, TermM::Var(k), val), d, k, val),
{
    match a {
        AtomM::Eq(x, y) => {
            lemma_put_term(x, e, b->Eq_0, d, k, val);
            lemma_put_term(y, e, b->Eq_1, d, k, val);
        },
        AtomM::Less(x, y) => {
            lemma_put_term(x, e, b->Less_0, d, k, val);
            lemma_put_term(y, e, b->Less_1, d, k, val);
        },
        AtomM::LessMset(x, y) => {
            lemma_put_term(x, e, b->LessMset_0, d, k, val);
            lemma_put_term(y, e, b->LessMset_1, d, k, val);
        },
        AtomM::Subterm(x, y) => {
            lemma_put_term(x, e, b->Subterm_0, d, k, val);
            lemma_put_term(y, e, b->Subterm_1, d, k, val);
        },
        AtomM::Action(f, x) => {
            lemma_put_fact(f, e, b->Action_0, d, k, val);
            lemma_put_term(x, e, b->Action_1, d, k, val);
        },
        AtomM::Last(x) => {
            lemma_put_term(x, e, b->Last_0, d, k, val);
        },
        AtomM::Pred(f) => {
            lemma_put_fact(f, e, b->Pred_0, d, k, val);
        },
    }
}

proof fn lemma_put_formula(f: FormulaM, e: Scope, g: FormulaM, d: Scope, k: VarM, val: TermM)
    requires
        formula_like(f, e, g, d),
        binder_of(d, k) is None,
        unbound(val, d),
        term_weight(val) + 2 * formula_weight(g) + 1 <= u64::MAX,
    ensures
        formula_put(f, e, subst_formula(g, TermM::Var(k), val), d, k, val),
    decreases formula_size(g),
{
    match f {
        FormulaM::Atom(a) => lemma_put_atom(a, e, g->Atom_0, d, k, val),
        FormulaM::Not(a) => lemma_put_formula(*a, e, *g->Not_0, d, k, val),
        FormulaM::And(a, b) => {
            lemma_put_formula(*a, e, *g->And_0, d, k, val);
            lemma_put_formula(*b, e, *g->And_1, d, k, val);
        },
        FormulaM::Or(a, b) => {
            lemma_put_formula(*a, e, *g->Or_0, d, k, val);
            lemma_put_formula(*b, e, *g->Or_1, d, k, val);
        },
        FormulaM::Implies(a, b) => {
            lemma_put_formula(*a, e, *g->Implies_0, d, k, val);
            lemma_put_formula(*b, e, *g->Implies_1, d, k, val);
        },
        FormulaM::Iff(a, b) => {
            lemma_put_formula(*a, e, *g->Iff_0, d, k, val);
            lemma_put_formula(*b, e, *g->Iff_1, d, k, val);
        },
        FormulaM::Forall(vs, a) => {
            let ws = g->Forall_0;
            let b = *g->Forall_1;
            if ws.contains(k) {
                lemma_push_binder(d, ws, k);
                lemma_shadow(*a, e.push(vs), b, d.push(ws), k, val);
            } else {
                let q = opened(ws, b, k, val);
                lemma_opened(ws, b, k, val, d);
                lemma_opened_size(ws, b, k, val);
                lemma_formula_chain(
                    *a,
                    e.push(vs),
                    b,
                    d.push(ws),
                    q.body,
                    d.push(q.vars),
                );
                lemma_put_formula(*a, e.push(vs), q.body, d.push(q.vars), k, val);
            }
        },
        FormulaM::Exists(vs, a) => {
            let ws = g->Exists_0;
            let b = *g->Exists_1;
            if ws.contains(k) {
                lemma_push_binder(d, ws, k);
                lemma_shadow(*a, e.push(vs), b, d.push(ws), k, val);
            } else {
                let q = opened(ws, b, k, val);
                lemma_opened(ws, b, k, val, d);
                lemma_opened_size(ws, b, k, val);
                lemma_formula_chain(
                    *a,
                    e.push(vs),
                    b,
                    d.push(ws),
                    q.body,
                    d.push(q.vars),
                );
                lemma_put_formula(*a, e.push(vs), q.body, d.push(q.vars), k, val);
            }
        },
        _ => {},
    }
}

/// Putting a definition into a formula captures nothing: the result is the
/// formula with the term in the place of each free occurrence of the variable,
/// where every other occurrence is bound by the quantifier that bound it, and
/// no variable of the term is bound at all.
pub proof fn law_definitions_are_not_captured(f: FormulaM, k: VarM, val: TermM)
    requires
        term_weight(val) + 2 * formula_weight(f) + 1 <= u64::MAX,
    ensures
        formula_put(f, Seq::empty(), subst_formula(f, TermM::Var(k), val), Seq::empty(), k, val),
{
    lemma_formula_self(f, Seq::empty(), Seq::empty());
    lemma_put_formula(f, Seq::empty(), f, Seq::empty(), k, val);
}

/// A definition of a variable that a quantifier binds does not reach below
/// that quantifier.
pub proof fn law_definitions_are_shadowed(vs: Seq<VarM>, body: FormulaM, k: VarM, val: TermM)
    requires
        vs.contains(k),
    ensures
        subst_formula(FormulaM::Forall(vs, Box::new(body)), TermM::Var(k), val)
            == FormulaM::Forall(vs, Box::new(body)),
        subst_formula(FormulaM::Exists(vs, Box::new(body)), TermM::Var(k), val)
            == FormulaM::Exists(vs, Box::new(body)),
{
}

/// What stands in a term under a definition stood in it, or stands in the
/// value; the defined variable itself only the latter.
proof fn lemma_under(t: TermM, k: VarM, val: TermM, v: VarM)
    requires
        in_term(subst_term(t, TermM::Var(k), val), v),
    ensures
        in_term(val, v) || (in_term(t, v) && v != k),
    decreases t,
{
    let u = subst_term(t, TermM::Var(k), val);
    if t != TermM::Var(k) {
        match t {
            TermM::App(_, xs) => {
                let ys = u->App_1;
                let i = choose|i: int| 0 <= i < ys.len() && in_term(#[trigger] ys[i], v);
                assert(ys[i] == subst_term(xs[i], TermM::Var(k), val));
                lemma_under(xs[i], k, val, v);
            },
            TermM::Pair(xs) => {
                let ys = u->Pair_0;
                let i = choose|i: int| 0 <= i < ys.len() && in_term(#[trigger] ys[i], v);
                assert(ys[i] == subst_term(xs[i], TermM::Var(k), val));
                lemma_under(xs[i], k, val, v);
            },
            TermM::AlgApp(_, a, b) => {
                if in_term(*u->AlgApp_1, v) {
                    lemma_under(*a, k, val, v);
                } else {
                    lemma_under(*b, k, val, v);
                }
            },
            TermM::Diff(a, b) => {
                if in_term(*u->Diff_0, v) {
                    lemma_under(*a, k, val, v);
                } else {
                    lemma_under(*b, k, val, v);
                }
            },
            TermM::BinOp(_, a, b) => {
                if in_term(*u->BinOp_1, v) {
                    lemma_under(*a, k, val, v);
                } else {
                    lemma_under(*b, k, val, v);
                }
            },
            TermM::PatMatch(a) => {
                lemma_under(*a, k, val, v);
            },
            _ => {},
        }
    }
}

/// Whether the variable stands in one of the facts.
pub open spec fn in_facts(fs: Seq<FactM>, v: VarM) -> bool {
    exists|i: int| 0 <= i < fs.len() && in_terms((#[trigger] fs[i]).args, v)
}

proof fn lemma_facts_under_one(fs: Seq<FactM>, k: VarM, val: TermM, v: VarM)
    requires
        in_facts(subst_facts(fs, TermM::Var(k), val), v),
    ensures
        in_term(val, v) || (in_facts(fs, v) && v != k),
{
    let gs = subst_facts(fs, TermM::Var(k), val);
    let i = choose|i: int| 0 <= i < gs.len() && in_terms((#[trigger] gs[i]).args, v);
    let us = gs[i].args;
    assert(gs[i] == subst_fact(fs[i], TermM::Var(k), val));
    let j = choose|j: int| 0 <= j < us.len() && in_term(#[trigger] us[j], v);
    assert(us[j] == subst_term(fs[i].args[j], TermM::Var(k), val));
    lemma_under(fs[i].args[j], k, val, v);
}

/// Whether each definition is of a variable, and its value holds neither that
/// variable nor one that is defined further on.
pub open spec fn well_ordered(bs: Seq<(TermM, TermM)>) -> bool {
    &&& forall|i: int| 0 <= i < bs.len() ==> (#[trigger] bs[i]).0 is Var
    &&& forall|i: int, j: int|
        0 <= i <= j < bs.len() ==> !in_term((#[trigger] bs[i]).1, (#[trigger] bs[j]).0->Var_0)
}

proof fn lemma_stays_out(fs: Seq<FactM>, bs: Seq<(TermM, TermM)>, v: VarM)
    requires
        !in_facts(fs, v),
        forall|i: int| 0 <= i < bs.len() ==> (#[trigger] bs[i]).0 is Var && !in_term(bs[i].1, v),
    ensures
        !in_facts(facts_under(fs, bs), v),
    decreases bs.len(),
{
    if bs.len() > 0 {
        let gs = subst_facts(fs, bs.last().0, bs.last().1);
        assert(bs[bs.len() - 1] == bs.last());
        if in_facts(gs, v) {
            lemma_facts_under_one(fs, bs.last().0->Var_0, bs.last().1, v);
        }
        assert forall|i: int| 0 <= i < bs.drop_last().len() implies (
        #[trigger] bs.drop_last()[i]).0 is Var && !in_term(bs.drop_last()[i].1, v) by {
            assert(bs.drop_last()[i] == bs[i]);
        }
        lemma_stays_out(gs, bs.drop_last(), v);
    }
}

/// No variable that the definitions of a rule define is left in its facts.
pub proof fn law_defined_variables_are_replaced(fs: Seq<FactM>, bs: Seq<(TermM, TermM)>)
    requires
        well_ordered(bs),
    ensures
        forall|i: int|
            0 <= i < bs.len() ==> !in_facts(facts_under(fs, bs), (#[trigger] bs[i]).0->Var_0),
    decreases bs.len(),
{
    if bs.len() > 0 {
        let last = bs.last();
        let before = bs.drop_last();
        let k = last.0->Var_0;
        let gs = subst_facts(fs, last.0, last.1);
        assert(bs[bs.len() - 1] == last);
        assert forall|i: int| 0 <= i < before.len() implies (#[trigger] before[i]).0 is Var
            && !in_term(before[i].1, k) by {
            assert(before[i] == bs[i]);
        }
        assert forall|i: int, j: int| 0 <= i <= j < before.len() implies !in_term(
            (#[trigger] before[i]).1,
            (#[trigger] before[j]).0->Var_0,
        ) by {
            assert(before[i] == bs[i] && before[j] == bs[j]);
        }
        if in_facts(gs, k) {
            lemma_facts_under_one(fs, k, last.1, k);
        }
        lemma_stays_out(gs, before, k);
        law_defined_variables_are_replaced(gs, before);
        assert forall|i: int| 0 <= i < bs.len() implies !in_facts(
            facts_under(fs, bs),
            (#[trigger] bs[i]).0->Var_0,
        ) by {
            if i < before.len() {
                assert(before[i] == bs[i]);
            }
        }
    }
}

} // verus!
