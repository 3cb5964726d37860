//! The order of names and function symbols, and the lists that are kept in it.

use crate::functions::{admitted, all_admitted, without};
use crate::signature::{name_place, pair_syms, sym_lt, sym_place, with_name, with_sym, FunSymM};
use crate::state::SigM;
use crate::text::name_lt;
use vstd::prelude::*;

verus! {

/// Whether the names stand in order, none of them twice.
pub open spec fn names_sorted(v: Seq<Seq<char>>) -> bool {
    forall|i: int, j: int| 0 <= i < j < v.len() ==> name_lt(#[trigger] v[i], #[trigger] v[j])
}

/// Whether the symbols stand in order, none of them twice.
pub open spec fn syms_sorted(v: Seq<FunSymM>) -> bool {
    forall|i: int, j: int| 0 <= i < j < v.len() ==> sym_lt(#[trigger] v[i], #[trigger] v[j])
}

/// Whether the signature lists its functions in order, none of them twice.
#[verifier::opaque]
pub open spec fn orderly(sig: SigM) -> bool {
    syms_sorted(sig.fun_syms) && names_sorted(sig.ac_fun_syms)
}

/// No name comes before itself.
pub proof fn lemma_name_irreflexive(a: Seq<char>)
    ensures
        !name_lt(a, a),
    decreases a.len(),
{
    if a.len() > 0 {
        lemma_name_irreflexive(a.subrange(1, a.len() as int));
    }
}

/// The order of names is transitive.
pub proof fn lemma_name_transitive(a: Seq<char>, b: Seq<char>, c: Seq<char>)
    requires
        name_lt(a, b),
        name_lt(b, c),
    ensures
        name_lt(a, c),
    decreases a.len(),
{
    if a.len() > 0 && a[0] == b[0] && b[0] == c[0] {
        lemma_name_transitive(
            a.subrange(1, a.len() as int),
            b.subrange(1, b.len() as int),
            c.subrange(1, c.len() as int),
        );
    }
}

/// Of two names that differ one comes before the other.
pub proof fn lemma_name_total(a: Seq<char>, b: Seq<char>)
    ensures
        name_lt(a, b) || name_lt(b, a) || a == b,
    decreases a.len(),
{
    if a.len() == 0 && b.len() == 0 {
        assert(a =~= b);
    } else if a.len() > 0 && b.len() > 0 && a[0] == b[0] {
        let x = a.subrange(1, a.len() as int);
        let y = b.subrange(1, b.len() as int);
        lemma_name_total(x, y);
        if x == y {
            assert(a =~= seq![a[0]] + x);
            assert(b =~= seq![b[0]] + y);
        }
    }
}

/// The order of symbols is transitive.
pub proof fn lemma_sym_transitive(a: FunSymM, b: FunSymM, c: FunSymM)
    requires
        sym_lt(a, b),
        sym_lt(b, c),
    ensures
        sym_lt(a, c),
{
    if name_lt(a.name, b.name) && name_lt(b.name, c.name) {
        lemma_name_transitive(a.name, b.name, c.name);
    }
}

/// No symbol comes before itself, and of two that differ one comes first.
pub proof fn lemma_sym_total(a: FunSymM, b: FunSymM)
    ensures
        !sym_lt(a, a),
        sym_lt(a, b) || sym_lt(b, a) || a == b,
{
    lemma_name_irreflexive(a.name);
    lemma_name_total(a.name, b.name);
}

proof fn lemma_sym_split(v: Seq<FunSymM>, k: FunSymM, i: int)
    requires
        0 <= i <= v.len(),
    ensures
        i <= sym_place(v, k, i) <= v.len(),
        forall|j: int| i <= j < sym_place(v, k, i) ==> sym_lt(#[trigger] v[j], k),
        sym_place(v, k, i) < v.len() ==> !sym_lt(v[sym_place(v, k, i)], k),
    decreases v.len() - i,
{
    if i < v.len() && sym_lt(v[i], k) {
        lemma_sym_split(v, k, i + 1);
    }
}

proof fn lemma_name_split(v: Seq<Seq<char>>, n: Seq<char>, i: int)
    requires
        0 <= i <= v.len(),
    ensures
        i <= name_place(v, n, i) <= v.len(),
        forall|j: int| i <= j < name_place(v, n, i) ==> name_lt(#[trigger] v[j], n),
        name_place(v, n, i) < v.len() ==> !name_lt(v[name_place(v, n, i)], n),
    decreases v.len() - i,
{
    if i < v.len() && name_lt(v[i], n) {
        lemma_name_split(v, n, i + 1);
    }
}

/// To put a symbol into an ordered list keeps the order, adds that symbol and
/// no other, and changes nothing where the symbol is there.
pub proof fn law_symbols_are_an_ordered_set(v: Seq<FunSymM>, k: FunSymM)
    requires
        syms_sorted(v),
    ensures
        syms_sorted(with_sym(v, k)),
        forall|x: FunSymM| #[trigger] with_sym(v, k).contains(x) <==> v.contains(x) || x == k,
        v.contains(k) ==> with_sym(v, k) == v,
{
    lemma_sym_split(v, k, 0);
    let i = sym_place(v, k, 0);
    let w = with_sym(v, k);
    if i < v.len() && v[i] == k {
        assert(v.contains(k));
    } else {
        assert forall|a: int, b: int| 0 <= a < b < w.len() implies sym_lt(
            #[trigger] w[a],
            #[trigger] w[b],
        ) by {
            if i < v.len() {
                lemma_sym_total(v[i], k);
            }
            if a == i && b > i + 1 {
                lemma_sym_transitive(k, v[i], v[b - 1]);
            }
        }
        assert forall|x: FunSymM| #[trigger] w.contains(x) <==> v.contains(x) || x == k by {
            assert(w[i] == k);
            if v.contains(x) {
                let j = choose|j: int| 0 <= j < v.len() && v[j] == x;
                assert(w[if j < i {
                    j
                } else {
                    j + 1
                }] == x);
            }
            if w.contains(x) {
                let j = choose|j: int| 0 <= j < w.len() && w[j] == x;
                if j != i {
                    assert(v[if j < i {
                        j
                    } else {
                        j - 1
                    }] == x);
                }
            }
        }
        if v.contains(k) {
            let j = choose|j: int| 0 <= j < v.len() && v[j] == k;
            lemma_sym_total(k, v[i]);
            if j > i {
                lemma_sym_transitive(k, v[i], v[j]);
            }
            lemma_sym_total(k, k);
        }
    }
}

/// To put a name into an ordered list keeps the order, adds that name and no
/// other, and changes nothing where the name is there.
pub proof fn law_names_are_an_ordered_set(v: Seq<Seq<char>>, n: Seq<char>)
    requires
        names_sorted(v),
    ensures
        names_sorted(with_name(v, n)),
        forall|x: Seq<char>| #[trigger] with_name(v, n).contains(x) <==> v.contains(x) || x == n,
        v.contains(n) ==> with_name(v, n) == v,
{
    lemma_name_split(v, n, 0);
    let i = name_place(v, n, 0);
    let w = with_name(v, n);
    if !v.contains(n) {
        assert forall|a: int, b: int| 0 <= a < b < w.len() implies name_lt(
            #[trigger] w[a],
            #[trigger] w[b],
        ) by {
            if i < v.len() {
                lemma_name_total(v[i], n);
            }
            if a == i && b > i + 1 {
                lemma_name_transitive(n, v[i], v[b - 1]);
            }
        }
        assert forall|x: Seq<char>| #[trigger] w.contains(x) <==> v.contains(x) || x == n by {
            assert(w[i] == n);
            if v.contains(x) {
                let j = choose|j: int| 0 <= j < v.len() && v[j] == x;
                assert(w[if j < i {
                    j
                } else {
                    j + 1
                }] == x);
            }
            if w.contains(x) {
                let j = choose|j: int| 0 <= j < w.len() && w[j] == x;
                if j != i {
                    assert(v[if j < i {
                        j
                    } else {
                        j - 1
                    }] == x);
                }
            }
        }
    }
}

/// What is left without a symbol stands in the order it had.
proof fn lemma_without(v: Seq<FunSymM>, k: FunSymM)
    requires
        syms_sorted(v),
    ensures
        syms_sorted(without(v, k)),
        forall|x: FunSymM| without(v, k).contains(x) ==> v.contains(x),
    decreases v.len(),
{
    if v.len() > 0 {
        let u = v.drop_last();
        lemma_without(u, k);
        let rest = without(u, k);
        assert forall|x: FunSymM| rest.contains(x) implies v.contains(x) && sym_lt(x, v.last()) by {
            assert(u.contains(x));
            let j = choose|j: int| 0 <= j < u.len() && u[j] == x;
            assert(v[j] == x);
        }
        let w = without(v, k);
        assert forall|a: int, b: int| 0 <= a < b < w.len() implies sym_lt(
            #[trigger] w[a],
            #[trigger] w[b],
        ) by {
            assert(rest.contains(rest[a]));
        }
        assert forall|x: FunSymM| w.contains(x) implies v.contains(x) by {
            let j = choose|j: int| 0 <= j < w.len() && w[j] == x;
            if j < rest.len() {
                assert(rest.contains(rest[j]));
            } else {
                assert(v[v.len() - 1] == x);
            }
        }
    }
}

/// A list of symbols is in order after the builtins have been put in.
pub proof fn lemma_all_admitted(syms: Seq<FunSymM>, news: Seq<FunSymM>, n: int)
    requires
        syms_sorted(syms),
    ensures
        syms_sorted(all_admitted(syms, news, n)),
    decreases n,
{
    if 0 < n <= news.len() {
        lemma_all_admitted(syms, news, n - 1);
        let v = all_admitted(syms, news, n - 1);
        let k = news[n - 1];
        let other = crate::functions::other_variant(k);
        lemma_without(v, other);
        law_symbols_are_an_ordered_set(without(v, other), k);
        law_symbols_are_an_ordered_set(v, k);
        assert(all_admitted(syms, news, n) == admitted(v, k));
    }
}

/// The symbols of pairs stand in order.
pub proof fn lemma_pair_syms()
    ensures
        syms_sorted(pair_syms()),
{
    reveal_strlit("fst");
    reveal_strlit("pair");
    reveal_strlit("snd");
    reveal_with_fuel(name_lt, 2);
}

} // verus!
