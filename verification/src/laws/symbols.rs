//! What is known of the functions that terms use.

use crate::basics::initial;
use crate::functions::{admitted, other_variant, without};
use crate::signature::{
    first_opts, least_opts, named_in, plain_opts, theory_syms, with_sym, FunOptions, FunSymM,
};
use crate::state::SigM;
use crate::vars::{algebra_syms, arity_of, is_exp, nullary, ArityRes};
use vstd::prelude::*;

verus! {

/// The first symbol of a name tells its options; a name that no symbol has
/// tells none.
pub proof fn law_first_symbols(syms: Seq<FunSymM>, name: Seq<char>, k: int)
    requires
        0 <= k <= syms.len(),
        forall|j: int| 0 <= j < k ==> (#[trigger] syms[j]).name != name,
    ensures
        k < syms.len() && syms[k].name == name ==> first_opts(syms, name, 0) == Some(syms[k].opts),
        k == syms.len() ==> first_opts(syms, name, 0) is None,
{
    lemma_first(syms, name, 0, k);
}

proof fn lemma_first(syms: Seq<FunSymM>, name: Seq<char>, i: int, k: int)
    requires
        0 <= i <= k <= syms.len(),
        forall|j: int| 0 <= j < k ==> (#[trigger] syms[j]).name != name,
    ensures
        k < syms.len() && syms[k].name == name ==> first_opts(syms, name, i) == Some(syms[k].opts),
        k == syms.len() ==> first_opts(syms, name, i) is None,
    decreases k - i,
{
    if i < k {
        lemma_first(syms, name, i + 1, k);
    }
}

proof fn lemma_least(syms: Seq<FunSymM>, name: Seq<char>, n: int, best: Option<FunOptions>)
    requires
        0 <= n <= syms.len(),
    ensures
        least_opts(syms, name, n, best) is None <==> best is None && forall|i: int|
            0 <= i < n ==> (#[trigger] syms[i]).name != name,
        least_opts(syms, name, n, best) matches Some(o) ==> best == Some(o) || exists|i: int|
            0 <= i < n && (#[trigger] syms[i]).name == name && syms[i].opts == o,
    decreases n,
{
    if n > 0 {
        lemma_least(syms, name, n - 1, best);
        assert(syms[n - 1].name == syms[n - 1].name);
    }
}

/// A name stands for a function exactly where one of that name is known: a
/// declared one, one of the theories that are turned on, an associative one, a
/// macro, or the pairing `em`.
pub proof fn law_names_of_known_functions(sig: SigM, op: Seq<char>)
    ensures
        arity_of(sig, op) is Some <==> named_in(sig.fun_syms, op) || named_in(algebra_syms(sig), op)
            || sig.ac_fun_syms.contains(op) || named_in(sig.macro_syms, op) || op == "em"@,
        arity_of(sig, op) == Some(ArityRes::Ac) <==> sig.ac_fun_syms.contains(op) && !named_in(
            sig.fun_syms,
            op,
        ) && !named_in(algebra_syms(sig), op),
{
    let all = algebra_syms(sig);
    let own = least_opts(sig.fun_syms, op, sig.fun_syms.len() as int, None);
    lemma_least(sig.fun_syms, op, sig.fun_syms.len() as int, None);
    lemma_least(all, op, all.len() as int, own);
    lemma_none(sig.macro_syms, op, 0);
    lemma_named(sig.fun_syms, op);
    lemma_named(all, op);
    reveal(arity_of);
}

proof fn lemma_named(syms: Seq<FunSymM>, op: Seq<char>)
    ensures
        named_in(syms, op) <==> !(forall|i: int|
            0 <= i < syms.len() ==> (#[trigger] syms[i]).name != op),
{
    if named_in(syms, op) {
        let i = choose|i: int| 0 <= i < syms.len() && #[trigger] syms[i].name == op;
        assert(syms[i].name == op);
    }
    if !(forall|i: int| 0 <= i < syms.len() ==> (#[trigger] syms[i]).name != op) {
        let i = choose|i: int| 0 <= i < syms.len() && (#[trigger] syms[i]).name == op;
        assert(syms[i].name == op);
    }
}

proof fn lemma_none(syms: Seq<FunSymM>, op: Seq<char>, i: int)
    requires
        0 <= i <= syms.len(),
        forall|j: int| 0 <= j < i ==> (#[trigger] syms[j]).name != op,
    ensures
        first_opts(syms, op, i) is Some <==> named_in(syms, op),
    decreases syms.len() - i,
{
    if i < syms.len() {
        if syms[i].name != op {
            lemma_none(syms, op, i + 1);
        }
    } else if named_in(syms, op) {
        let j = choose|j: int| 0 <= j < syms.len() && #[trigger] syms[j].name == op;
        assert(syms[j].name != op);
    }
}

/// A function that is declared once, and is none of a theory that is turned on,
/// is applied with the options it was declared with.
pub proof fn law_functions_are_applied_as_declared(sig: SigM, k: FunSymM, i: int)
    requires
        0 <= i < sig.fun_syms.len(),
        sig.fun_syms[i] == k,
        forall|j: int|
            0 <= j < sig.fun_syms.len() && (#[trigger] sig.fun_syms[j]).name == k.name
                ==> sig.fun_syms[j] == k,
        !named_in(algebra_syms(sig), k.name),
    ensures
        arity_of(sig, k.name) == Some(ArityRes::NoEq { opts: k.opts }),
{
    let all = algebra_syms(sig);
    let own = least_opts(sig.fun_syms, k.name, sig.fun_syms.len() as int, None);
    lemma_least(sig.fun_syms, k.name, sig.fun_syms.len() as int, None);
    lemma_least(all, k.name, all.len() as int, own);
    lemma_named(all, k.name);
    reveal(arity_of);
    assert(sig.fun_syms[i].name == k.name);
}

/// The functions of the theories that are turned on: those of Diffie-Hellman,
/// of pairings, of exclusive or and of numbers, each with its own.
pub proof fn law_functions_of_theories(dh: bool, bp: bool, xor: bool, nats: bool, i: int)
    requires
        0 <= i < theory_syms(dh, bp, xor, nats).len(),
    ensures
        ({
            let k = theory_syms(dh, bp, xor, nats)[i];
            &&& k.opts == plain_opts(k.opts.arity as int)
            &&& k.name == "exp"@ ==> k.opts.arity == 2 && dh
            &&& k.name == "inv"@ ==> k.opts.arity == 1 && dh
            &&& k.name == "one"@ ==> k.opts.arity == 0 && dh
            &&& k.name == "DH_neutral"@ ==> k.opts.arity == 0 && dh
            &&& k.name == "pmult"@ ==> k.opts.arity == 2 && bp
            &&& k.name == "zero"@ ==> k.opts.arity == 0 && xor
            &&& k.name == "tone"@ ==> k.opts.arity == 0 && nats
            &&& k.name == "exp"@ || k.name == "inv"@ || k.name == "one"@ || k.name == "DH_neutral"@
                || k.name == "pmult"@ || k.name == "zero"@ || k.name == "tone"@
        }),
        theory_syms(dh, bp, xor, nats).len() == (if dh {
            4int
        } else {
            0
        }) + (if bp {
            1int
        } else {
            0
        }) + (if xor {
            1int
        } else {
            0
        }) + (if nats {
            1int
        } else {
            0
        }),
{
    reveal_strlit("exp");
    reveal_strlit("inv");
    reveal_strlit("one");
    reveal_strlit("DH_neutral");
    reveal_strlit("pmult");
    reveal_strlit("zero");
    reveal_strlit("tone");
    assert("exp"@.len() == 3 && "inv"@.len() == 3 && "one"@.len() == 3 && "DH_neutral"@.len() == 10
        && "pmult"@.len() == 5 && "zero"@.len() == 4 && "tone"@.len() == 4);
    assert("exp"@[0] == 'e' && "inv"@[0] == 'i' && "one"@[0] == 'o' && "zero"@[0] == 'z'
        && "tone"@[0] == 't');
}

/// A name is a constant exactly where a function, a macro or a function of a
/// theory that is turned on has it and takes no argument.
pub proof fn law_constants(sig: SigM, name: Seq<char>)
    ensures
        nullary(sig, name) <==> (exists|i: int|
            0 <= i < sig.fun_syms.len() && (#[trigger] sig.fun_syms[i]).name == name
                && sig.fun_syms[i].opts.arity == 0) || (exists|i: int|
            0 <= i < sig.macro_syms.len() && (#[trigger] sig.macro_syms[i]).name == name
                && sig.macro_syms[i].opts.arity == 0) || (exists|i: int|
            0 <= i < algebra_syms(sig).len() && (#[trigger] algebra_syms(sig)[i]).name == name
                && algebra_syms(sig)[i].opts.arity == 0),
{
    reveal(nullary);
}

/// A power is written by `exp` alone, with two arguments.
pub proof fn law_powers(res: ArityRes, id: Seq<char>)
    ensures
        is_exp(res, id) ==> id == "exp"@ && (res matches ArityRes::NoEq { opts } && opts.arity == 2
            && !opts.private && !opts.destructor),
{
}

/// A theory starts with pairs and their projections, at the start of its text,
/// with the flags that are set; `diff` is turned on for diff theories and by the
/// flag of that name.
pub proof fn law_theories_start(src: Seq<char>, flags: Seq<Seq<char>>, is_diff: bool)
    ensures
        ({
            let s = initial(src, flags, is_diff);
            &&& s.src == src && s.at == 0 && s.st.flags == flags && s.place.is_diff == is_diff
            &&& s.sig.enable_diff <==> is_diff || flags.contains("diff"@)
            &&& !s.sig.enable_dh && !s.sig.enable_bp && !s.sig.enable_xor && !s.sig.enable_mset
                && !s.sig.enable_nat
            &&& s.sig.fun_syms.len() == 3 && s.sig.ac_fun_syms.len() == 0 && s.sig.macro_syms.len()
                == 0
            &&& s.sig.fun_syms.contains(FunSymM { name: "fst"@, opts: plain_opts(1) })
            &&& s.sig.fun_syms.contains(FunSymM { name: "snd"@, opts: plain_opts(1) })
            &&& s.sig.fun_syms.contains(FunSymM { name: "pair"@, opts: plain_opts(2) })
            &&& s.st.seen.rules.len() == 0 && s.st.seen.lemma_names.len() == 0
                && s.st.seen.restriction_names.len() == 0
        }),
{
    let v = initial(src, flags, is_diff).sig.fun_syms;
    assert(v[0] == (FunSymM { name: "fst"@, opts: plain_opts(1) }));
    assert(v[1] == (FunSymM { name: "pair"@, opts: plain_opts(2) }));
    assert(v[2] == (FunSymM { name: "snd"@, opts: plain_opts(1) }));
}

proof fn lemma_without(syms: Seq<FunSymM>, k: FunSymM, x: FunSymM)
    ensures
        without(syms, k).contains(x) <==> syms.contains(x) && x != k,
    decreases syms.len(),
{
    if syms.len() > 0 {
        lemma_without(syms.drop_last(), k, x);
        let rest = without(syms.drop_last(), k);
        assert(syms[syms.len() - 1] == syms.last());
        if syms.contains(x) && x != syms.last() {
            let i = choose|i: int| 0 <= i < syms.len() && syms[i] == x;
            assert(syms.drop_last()[i] == x);
        }
        if syms.drop_last().contains(x) {
            let i = choose|i: int| 0 <= i < syms.drop_last().len() && syms.drop_last()[i] == x;
            assert(syms[i] == x);
        }
        if syms.last() != k {
            let p = rest.push(syms.last());
            assert(p[rest.len() as int] == syms.last());
            if rest.contains(x) {
                let i = choose|i: int| 0 <= i < rest.len() && rest[i] == x;
                assert(p[i] == x);
            }
            if p.contains(x) {
                let i = choose|i: int| 0 <= i < p.len() && p[i] == x;
                if i < rest.len() {
                    assert(rest[i] == x);
                }
            }
        }
    }
}

/// Of the two variants of a projection, the one that takes terms apart and the
/// one that does not, the one that comes later takes the place of the other.
pub proof fn law_projections_replace_each_other(syms: Seq<FunSymM>, k: FunSymM)
    requires
        k.name == "fst"@ || k.name == "snd"@,
    ensures
        admitted(syms, k) == with_sym(without(syms, other_variant(k)), k),
        !without(syms, other_variant(k)).contains(other_variant(k)),
        other_variant(k).name == k.name && other_variant(k).opts.arity == k.opts.arity
            && other_variant(k).opts.destructor == !k.opts.destructor,
        other_variant(other_variant(k)) == k,
{
    lemma_without(syms, other_variant(k), other_variant(k));
    reveal(admitted);
}

/// Any other symbol is put among those that are known.
pub proof fn law_other_symbols_are_added(syms: Seq<FunSymM>, k: FunSymM)
    requires
        k.name != "fst"@,
        k.name != "snd"@,
    ensures
        admitted(syms, k) == with_sym(syms, k),
{
    reveal(admitted);
}

} // verus!
