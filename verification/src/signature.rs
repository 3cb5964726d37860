//! Function symbols: their options, their order, and what the builtins bring.

use crate::model::{no_items, put, put_at};
use crate::text::{decimal, name_less, name_lt, same, to_decimal};
use vstd::prelude::*;

verus! {

/// The options of a function symbol.
#[derive(Debug, Clone, Copy, PartialEq, Eq, Structural)]
pub struct FunOptions {
    pub arity: usize,
    pub private: bool,
    pub destructor: bool,
    pub ndc: bool,
    pub ndc_diff: bool,
}

/// Rank of the two no-deconstruction-chain flags in the order of options.
pub open spec fn ndc_rank(o: FunOptions) -> int {
    if o.ndc && !o.ndc_diff {
        0
    } else if !o.ndc && !o.ndc_diff {
        1
    } else if !o.ndc {
        2
    } else {
        3
    }
}

/// Order of options: arity, then private before public, then constructor
/// before destructor, then the no-deconstruction-chain flags.
pub open spec fn opts_lt(a: FunOptions, b: FunOptions) -> bool {
    if a.arity != b.arity {
        a.arity < b.arity
    } else if a.private != b.private {
        a.private
    } else if a.destructor != b.destructor {
        b.destructor
    } else {
        ndc_rank(a) < ndc_rank(b)
    }
}

/// The options as a tuple.
pub open spec fn opts_text(o: FunOptions) -> Seq<char> {
    "("@ + decimal(o.arity as nat) + ","@ + (if o.private {
        "Private"@
    } else {
        "Public"@
    }) + ","@ + (if o.destructor {
        "Destructor"@
    } else {
        "Constructor"@
    }) + ","@ + (if o.ndc && o.ndc_diff {
        "IsNDCBoth"@
    } else if o.ndc {
        "IsNDC"@
    } else if o.ndc_diff {
        "IsNDCDiff"@
    } else {
        "NotNDC"@
    }) + ")"@
}

/// A public constructor without further properties.
pub open spec fn plain_opts(arity: int) -> FunOptions {
    FunOptions {
        arity: arity as usize,
        private: false,
        destructor: false,
        ndc: false,
        ndc_diff: false,
    }
}

/// A public destructor without further properties.
pub open spec fn destructor_opts(arity: int) -> FunOptions {
    FunOptions {
        arity: arity as usize,
        private: false,
        destructor: true,
        ndc: false,
        ndc_diff: false,
    }
}

/// A private constructor without further properties.
pub open spec fn private_opts(arity: int) -> FunOptions {
    FunOptions {
        arity: arity as usize,
        private: true,
        destructor: false,
        ndc: false,
        ndc_diff: false,
    }
}

impl FunOptions {
    pub fn plain(arity: usize) -> (o: FunOptions)
        ensures
            o == plain_opts(arity as int),
    {
        FunOptions { arity, private: false, destructor: false, ndc: false, ndc_diff: false }
    }

    fn ndc_order(&self) -> (r: u8)
        ensures
            r == ndc_rank(*self),
    {
        if self.ndc && !self.ndc_diff {
            0
        } else if !self.ndc && !self.ndc_diff {
            1
        } else if !self.ndc {
            2
        } else {
            3
        }
    }

    /// Whether `self` comes before `other`.
    pub fn before(&self, other: &FunOptions) -> (r: bool)
        ensures
            r == opts_lt(*self, *other),
    {
        if self.arity != other.arity {
            self.arity < other.arity
        } else if self.private != other.private {
            self.private
        } else if self.destructor != other.destructor {
            other.destructor
        } else {
            self.ndc_order() < other.ndc_order()
        }
    }

    /// The options as a tuple.
    pub fn show(&self) -> (r: String)
        ensures
            r@ == opts_text(*self),
    {
        let mut r = "(".to_string();
        r.push_str(&to_decimal(self.arity as u64));
        r.push_str(",");
        r.push_str(
            if self.private {
                "Private"
            } else {
                "Public"
            },
        );
        r.push_str(",");
        r.push_str(
            if self.destructor {
                "Destructor"
            } else {
                "Constructor"
            },
        );
        r.push_str(",");
        r.push_str(
            if self.ndc && self.ndc_diff {
                "IsNDCBoth"
            } else if self.ndc {
                "IsNDC"
            } else if self.ndc_diff {
                "IsNDCDiff"
            } else {
                "NotNDC"
            },
        );
        r.push_str(")");
        r
    }
}

/// A function symbol.
#[derive(Debug, Clone)]
pub struct FunSym {
    pub name: String,
    pub opts: FunOptions,
}

pub struct FunSymM {
    pub name: Seq<char>,
    pub opts: FunOptions,
}

impl DeepView for FunSym {
    type V = FunSymM;

    open spec fn deep_view(&self) -> FunSymM {
        FunSymM { name: self.name@, opts: self.opts }
    }
}

/// Order of symbols: by name, then by options.
pub open spec fn sym_lt(a: FunSymM, b: FunSymM) -> bool {
    name_lt(a.name, b.name) || (a.name == b.name && opts_lt(a.opts, b.opts))
}

/// First place at or after `i` whose symbol does not come before `k`.
pub open spec fn sym_place(syms: Seq<FunSymM>, k: FunSymM, i: int) -> int
    decreases syms.len() - i,
{
    if 0 <= i < syms.len() && sym_lt(syms[i], k) {
        sym_place(syms, k, i + 1)
    } else {
        i
    }
}

/// The ordered list of symbols with `k` in it.
pub open spec fn with_sym(syms: Seq<FunSymM>, k: FunSymM) -> Seq<FunSymM> {
    let i = sym_place(syms, k, 0);
    if i < syms.len() && syms[i] == k {
        syms
    } else {
        syms.insert(i, k)
    }
}

pub fn copy_syms(v: &Vec<FunSym>) -> (r: Vec<FunSym>)
    ensures
        r.deep_view() == v.deep_view(),
{
    let mut r = no_items::<FunSym>();
    let mut i: usize = 0;
    while i < v.len()
        invariant
            i <= v@.len(),
            r.deep_view() == v.deep_view().take(i as int),
        decreases v@.len() - i,
    {
        put(&mut r, FunSym { name: v[i].name.clone(), opts: v[i].opts });
        i = i + 1;
        assert(r.deep_view() =~= v.deep_view().take(i as int));
    }
    assert(v.deep_view().take(v@.len() as int) =~= v.deep_view());
    r
}

pub proof fn lemma_sym_place(syms: Seq<FunSymM>, k: FunSymM, i: int)
    requires
        0 <= i <= syms.len(),
    ensures
        i <= sym_place(syms, k, i) <= syms.len(),
        forall|j: int| i <= j < sym_place(syms, k, i) ==> sym_lt(#[trigger] syms[j], k),
        sym_place(syms, k, i) < syms.len() ==> !sym_lt(syms[sym_place(syms, k, i)], k),
    decreases syms.len() - i,
{
    if i < syms.len() && sym_lt(syms[i], k) {
        lemma_sym_place(syms, k, i + 1);
    }
}

/// Puts a symbol at its place in an ordered list, unless it stands there.
pub fn insert_sym(syms: &mut Vec<FunSym>, name: &str, opts: FunOptions)
    ensures
        final(syms).deep_view() == with_sym(old(syms).deep_view(), (FunSymM { name: name@, opts })),
{
    let ghost all = syms.deep_view();
    let ghost k = FunSymM { name: name@, opts };
    let mut i: usize = 0;
    while i < syms.len()
        invariant
            i <= syms@.len(),
            syms.deep_view() == all,
            *syms == *old(syms),
            k == (FunSymM { name: name@, opts }),
            sym_place(all, k, 0) == sym_place(all, k, i as int),
        decreases syms@.len() - i,
    {
        let here = name_less(&syms[i].name, name) || (same(&syms[i].name, name)
            && syms[i].opts.before(&opts));
        assert(here == sym_lt(all[i as int], k));
        if !here {
            if same(&syms[i].name, name) && syms[i].opts == opts {
                assert(all[i as int] == k);
                return;
            }
            assert(all[i as int] != k);
            put_at(syms, i, FunSym { name: name.to_string(), opts });
            return;
        }
        i = i + 1;
    }
    put_at(syms, i, FunSym { name: name.to_string(), opts });
}

/// First place at or after `i` whose name does not come before `n`.
pub open spec fn name_place(names: Seq<Seq<char>>, n: Seq<char>, i: int) -> int
    decreases names.len() - i,
{
    if 0 <= i < names.len() && name_lt(names[i], n) {
        name_place(names, n, i + 1)
    } else {
        i
    }
}

/// The ordered list of names with `n` in it.
pub open spec fn with_name(names: Seq<Seq<char>>, n: Seq<char>) -> Seq<Seq<char>> {
    let i = name_place(names, n, 0);
    if names.contains(n) {
        names
    } else {
        names.insert(i, n)
    }
}

pub proof fn lemma_name_place(names: Seq<Seq<char>>, n: Seq<char>, i: int)
    requires
        0 <= i <= names.len(),
    ensures
        i <= name_place(names, n, i) <= names.len(),
    decreases names.len() - i,
{
    if i < names.len() && name_lt(names[i], n) {
        lemma_name_place(names, n, i + 1);
    }
}

/// Puts a name at its place in an ordered list, unless the list has it.
pub fn insert_name(names: &mut Vec<String>, n: &str)
    ensures
        final(names).deep_view() == with_name(old(names).deep_view(), n@),
{
    let ghost all = names.deep_view();
    if crate::text::has_text(names, n) {
        return;
    }
    let mut i: usize = 0;
    while i < names.len()
        invariant
            i <= names@.len(),
            names.deep_view() == all,
            *names == *old(names),
            !all.contains(n@),
            name_place(all, n@, 0) == name_place(all, n@, i as int),
        decreases names@.len() - i,
    {
        if !name_less(&names[i], n) {
            put_at(names, i, n.to_string());
            return;
        }
        i = i + 1;
    }
    put_at(names, i, n.to_string());
}

/// A signature: free symbols, associative-commutative symbols, macros, and the
/// algebraic theories that are switched on.
#[derive(Debug, Clone)]
pub struct MaudeSig {
    pub st_fun_syms: Vec<FunSym>,
    pub st_ac_fun_syms: Vec<String>,
    pub macro_names: Vec<FunSym>,
    pub enable_dh: bool,
    pub enable_bp: bool,
    pub enable_xor: bool,
    pub enable_mset: bool,
    pub enable_nat: bool,
}

pub struct MaudeSigM {
    pub st_fun_syms: Seq<FunSymM>,
    pub st_ac_fun_syms: Seq<Seq<char>>,
    pub macro_names: Seq<FunSymM>,
    pub enable_dh: bool,
    pub enable_bp: bool,
    pub enable_xor: bool,
    pub enable_mset: bool,
    pub enable_nat: bool,
}

impl DeepView for MaudeSig {
    type V = MaudeSigM;

    open spec fn deep_view(&self) -> MaudeSigM {
        MaudeSigM {
            st_fun_syms: self.st_fun_syms.deep_view(),
            st_ac_fun_syms: self.st_ac_fun_syms.deep_view(),
            macro_names: self.macro_names.deep_view(),
            enable_dh: self.enable_dh,
            enable_bp: self.enable_bp,
            enable_xor: self.enable_xor,
            enable_mset: self.enable_mset,
            enable_nat: self.enable_nat,
        }
    }
}

/// The symbols of pairs.
pub open spec fn pair_syms() -> Seq<FunSymM> {
    seq![
        FunSymM { name: "fst"@, opts: plain_opts(1) },
        FunSymM { name: "pair"@, opts: plain_opts(2) },
        FunSymM { name: "snd"@, opts: plain_opts(1) },
    ]
}

fn sym(name: &str, opts: FunOptions) -> (s: FunSym)
    ensures
        s.deep_view() == (FunSymM { name: name@, opts }),
{
    FunSym { name: name.to_string(), opts }
}

fn plain_sym(name: &str, arity: usize) -> (s: FunSym)
    ensures
        s.deep_view() == (FunSymM { name: name@, opts: plain_opts(arity as int) }),
{
    sym(name, FunOptions::plain(arity))
}

fn destructor_sym(name: &str, arity: usize) -> (s: FunSym)
    ensures
        s.deep_view() == (FunSymM { name: name@, opts: destructor_opts(arity as int) }),
{
    sym(
        name,
        FunOptions { arity, private: false, destructor: true, ndc: false, ndc_diff: false },
    )
}

pub fn pair_fun_syms() -> (v: Vec<FunSym>)
    ensures
        v.deep_view() == pair_syms(),
{
    let mut v = no_items::<FunSym>();
    put(&mut v, plain_sym("fst", 1));
    put(&mut v, plain_sym("pair", 2));
    put(&mut v, plain_sym("snd", 1));
    assert(v.deep_view() =~= pair_syms());
    v
}

/// The signature of pairs.
pub open spec fn pair_sig() -> MaudeSigM {
    MaudeSigM {
        st_fun_syms: pair_syms(),
        st_ac_fun_syms: Seq::empty(),
        macro_names: Seq::empty(),
        enable_dh: false,
        enable_bp: false,
        enable_xor: false,
        enable_mset: false,
        enable_nat: false,
    }
}

pub fn pair_maude_sig() -> (s: MaudeSig)
    ensures
        s.deep_view() == pair_sig(),
{
    MaudeSig {
        st_fun_syms: pair_fun_syms(),
        st_ac_fun_syms: no_items::<String>(),
        macro_names: no_items::<FunSym>(),
        enable_dh: false,
        enable_bp: false,
        enable_xor: false,
        enable_mset: false,
        enable_nat: false,
    }
}

/// The free symbols that a builtin adds, in their order. `None` for a builtin
/// without a signature.
pub open spec fn builtin_syms(name: Seq<char>) -> Option<Seq<FunSymM>> {
    if name == "locations-report"@ {
        Some(
            seq![
                FunSymM { name: "check_rep"@, opts: destructor_opts(2) },
                FunSymM { name: "get_rep"@, opts: destructor_opts(1) },
                FunSymM { name: "rep"@, opts: private_opts(2) },
                FunSymM { name: "report"@, opts: plain_opts(1) },
            ],
        )
    } else if name == "diffie-hellman"@ || name == "bilinear-pairing"@ || name == "multiset"@
        || name == "xor"@ || name == "natural-numbers"@ {
        Some(Seq::empty())
    } else if name == "symmetric-encryption"@ {
        Some(
            seq![
                FunSymM { name: "sdec"@, opts: plain_opts(2) },
                FunSymM { name: "senc"@, opts: plain_opts(2) },
            ],
        )
    } else if name == "asymmetric-encryption"@ {
        Some(
            seq![
                FunSymM { name: "adec"@, opts: plain_opts(2) },
                FunSymM { name: "aenc"@, opts: plain_opts(2) },
                FunSymM { name: "pk"@, opts: plain_opts(1) },
            ],
        )
    } else if name == "signing"@ {
        Some(
            seq![
                FunSymM { name: "pk"@, opts: plain_opts(1) },
                FunSymM { name: "sign"@, opts: plain_opts(2) },
                FunSymM { name: "true"@, opts: plain_opts(0) },
                FunSymM { name: "verify"@, opts: plain_opts(3) },
            ],
        )
    } else if name == "dest-pairing"@ {
        Some(
            seq![
                FunSymM { name: "fst"@, opts: destructor_opts(1) },
                FunSymM { name: "pair"@, opts: plain_opts(2) },
                FunSymM { name: "snd"@, opts: destructor_opts(1) },
            ],
        )
    } else if name == "dest-symmetric-encryption"@ {
        Some(
            seq![
                FunSymM { name: "sdec"@, opts: destructor_opts(2) },
                FunSymM { name: "senc"@, opts: plain_opts(2) },
            ],
        )
    } else if name == "dest-asymmetric-encryption"@ {
        Some(
            seq![
                FunSymM { name: "adec"@, opts: destructor_opts(2) },
                FunSymM { name: "aenc"@, opts: plain_opts(2) },
                FunSymM { name: "pk"@, opts: plain_opts(1) },
            ],
        )
    } else if name == "dest-signing"@ {
        Some(
            seq![
                FunSymM { name: "pk"@, opts: plain_opts(1) },
                FunSymM { name: "sign"@, opts: plain_opts(2) },
                FunSymM { name: "true"@, opts: plain_opts(0) },
                FunSymM { name: "verify"@, opts: destructor_opts(3) },
            ],
        )
    } else if name == "revealing-signing"@ {
        Some(
            seq![
                FunSymM { name: "getMessage"@, opts: plain_opts(1) },
                FunSymM { name: "pk"@, opts: plain_opts(1) },
                FunSymM { name: "revealSign"@, opts: plain_opts(2) },
                FunSymM { name: "revealVerify"@, opts: plain_opts(3) },
                FunSymM { name: "true"@, opts: plain_opts(0) },
            ],
        )
    } else if name == "hashing"@ {
        Some(seq![FunSymM { name: "h"@, opts: plain_opts(1) }])
    } else {
        None
    }
}

/// The free symbols that a builtin adds.
pub fn builtin_st_fun_syms(name: &str) -> (r: Option<Vec<FunSym>>)
    ensures
        r.deep_view() == builtin_syms(name@),
{
    let mut v = no_items::<FunSym>();
    if same(name, "locations-report") {
        put(&mut v, destructor_sym("check_rep", 2));
        put(&mut v, destructor_sym("get_rep", 1));
        put(
            &mut v,
            sym(
                "rep",
                FunOptions {
                    arity: 2,
                    private: true,
                    destructor: false,
                    ndc: false,
                    ndc_diff: false,
                },
            ),
        );
        put(&mut v, plain_sym("report", 1));
        assert(v.deep_view() =~= builtin_syms(name@)->0);
    } else if same(name, "diffie-hellman") || same(name, "bilinear-pairing") || same(
        name,
        "multiset",
    ) || same(name, "xor") || same(name, "natural-numbers") {
    } else if same(name, "symmetric-encryption") {
        put(&mut v, plain_sym("sdec", 2));
        put(&mut v, plain_sym("senc", 2));
        assert(v.deep_view() =~= builtin_syms(name@)->0);
    } else if same(name, "asymmetric-encryption") {
        put(&mut v, plain_sym("adec", 2));
        put(&mut v, plain_sym("aenc", 2));
        put(&mut v, plain_sym("pk", 1));
        assert(v.deep_view() =~= builtin_syms(name@)->0);
    } else if same(name, "signing") {
        put(&mut v, plain_sym("pk", 1));
        put(&mut v, plain_sym("sign", 2));
        put(&mut v, plain_sym("true", 0));
        put(&mut v, plain_sym("verify", 3));
        assert(v.deep_view() =~= builtin_syms(name@)->0);
    } else if same(name, "dest-pairing") {
        put(&mut v, destructor_sym("fst", 1));
        put(&mut v, plain_sym("pair", 2));
        put(&mut v, destructor_sym("snd", 1));
        assert(v.deep_view() =~= builtin_syms(name@)->0);
    } else if same(name, "dest-symmetric-encryption") {
        put(&mut v, destructor_sym("sdec", 2));
        put(&mut v, plain_sym("senc", 2));
        assert(v.deep_view() =~= builtin_syms(name@)->0);
    } else if same(name, "dest-asymmetric-encryption") {
        put(&mut v, destructor_sym("adec", 2));
        put(&mut v, plain_sym("aenc", 2));
        put(&mut v, plain_sym("pk", 1));
        assert(v.deep_view() =~= builtin_syms(name@)->0);
    } else if same(name, "dest-signing") {
        put(&mut v, plain_sym("pk", 1));
        put(&mut v, plain_sym("sign", 2));
        put(&mut v, plain_sym("true", 0));
        put(&mut v, destructor_sym("verify", 3));
        assert(v.deep_view() =~= builtin_syms(name@)->0);
    } else if same(name, "revealing-signing") {
        put(&mut v, plain_sym("getMessage", 1));
        put(&mut v, plain_sym("pk", 1));
        put(&mut v, plain_sym("revealSign", 2));
        put(&mut v, plain_sym("revealVerify", 3));
        put(&mut v, plain_sym("true", 0));
        assert(v.deep_view() =~= builtin_syms(name@)->0);
    } else if same(name, "hashing") {
        put(&mut v, plain_sym("h", 1));
        assert(v.deep_view() =~= builtin_syms(name@)->0);
    } else {
        return None;
    }
    Some(v)
}

/// The builtins with a signature, in the order in which they are listed.
pub open spec fn builtin_names() -> Seq<Seq<char>> {
    seq![
        "locations-report"@,
        "diffie-hellman"@,
        "bilinear-pairing"@,
        "multiset"@,
        "xor"@,
        "symmetric-encryption"@,
        "asymmetric-encryption"@,
        "signing"@,
        "dest-pairing"@,
        "dest-symmetric-encryption"@,
        "dest-asymmetric-encryption"@,
        "dest-signing"@,
        "revealing-signing"@,
        "hashing"@,
        "natural-numbers"@,
    ]
}

pub fn builtin_maude_sig_names() -> (v: Vec<String>)
    ensures
        v.deep_view() == builtin_names(),
{
    let mut v = no_items::<String>();
    put(&mut v, "locations-report".to_string());
    put(&mut v, "diffie-hellman".to_string());
    put(&mut v, "bilinear-pairing".to_string());
    put(&mut v, "multiset".to_string());
    put(&mut v, "xor".to_string());
    put(&mut v, "symmetric-encryption".to_string());
    put(&mut v, "asymmetric-encryption".to_string());
    put(&mut v, "signing".to_string());
    put(&mut v, "dest-pairing".to_string());
    put(&mut v, "dest-symmetric-encryption".to_string());
    put(&mut v, "dest-asymmetric-encryption".to_string());
    put(&mut v, "dest-signing".to_string());
    put(&mut v, "revealing-signing".to_string());
    put(&mut v, "hashing".to_string());
    put(&mut v, "natural-numbers".to_string());
    assert(v.deep_view() =~= builtin_names());
    v
}

/// Whether one of the first `n` symbols is called `name`.
pub open spec fn named_in(syms: Seq<FunSymM>, name: Seq<char>) -> bool {
    exists|i: int| 0 <= i < syms.len() && #[trigger] syms[i].name == name
}

/// Whether one of `syms` is called `name`.
pub fn has_sym(syms: &Vec<FunSym>, name: &str) -> (r: bool)
    ensures
        r == named_in(syms.deep_view(), name@),
{
    let mut i: usize = 0;
    while i < syms.len()
        invariant
            i <= syms@.len(),
            forall|j: int| 0 <= j < i ==> (#[trigger] syms.deep_view()[j]).name != name@,
        decreases syms@.len() - i,
    {
        if same(&syms[i].name, name) {
            assert(syms.deep_view()[i as int].name == name@);
            return true;
        }
        i = i + 1;
    }
    false
}

/// Those of the first `n` listed builtins that bring a symbol `name`.
pub open spec fn owners(name: Seq<char>, n: int) -> Seq<Seq<char>>
    decreases n,
{
    if n <= 0 {
        Seq::empty()
    } else {
        let before = owners(name, n - 1);
        let b = builtin_names()[n - 1];
        if builtin_syms(b) matches Some(syms) && named_in(syms, name) {
            before.push(b)
        } else {
            before
        }
    }
}

/// All builtins that bring a symbol `name`, whether they are switched on or not.
pub fn builtins_with(name: &str) -> (r: Vec<String>)
    ensures
        r.deep_view() == owners(name@, builtin_names().len() as int),
{
    let names = builtin_maude_sig_names();
    let mut r = no_items::<String>();
    let mut i: usize = 0;
    while i < names.len()
        invariant
            i <= names@.len(),
            names.deep_view() == builtin_names(),
            r.deep_view() == owners(name@, i as int),
        decreases names@.len() - i,
    {
        assert(builtin_names()[i as int] == names@[i as int]@);
        match builtin_st_fun_syms(&names[i]) {
            Some(syms) => {
                if has_sym(&syms, name) {
                    put(&mut r, names[i].clone());
                }
            },
            None => {},
        }
        i = i + 1;
    }
    r
}

/// The free symbols of the algebraic theories that are switched on.
pub open spec fn theory_syms(dh: bool, bp: bool, xor: bool, nats: bool) -> Seq<FunSymM> {
    (if dh {
        seq![
            FunSymM { name: "DH_neutral"@, opts: plain_opts(0) },
            FunSymM { name: "exp"@, opts: plain_opts(2) },
            FunSymM { name: "inv"@, opts: plain_opts(1) },
            FunSymM { name: "one"@, opts: plain_opts(0) },
        ]
    } else {
        Seq::empty()
    }) + (if bp {
        seq![FunSymM { name: "pmult"@, opts: plain_opts(2) }]
    } else {
        Seq::empty()
    }) + (if xor {
        seq![FunSymM { name: "zero"@, opts: plain_opts(0) }]
    } else {
        Seq::empty()
    }) + (if nats {
        seq![FunSymM { name: "tone"@, opts: plain_opts(0) }]
    } else {
        Seq::empty()
    })
}

pub fn theory_noeq_syms(dh: bool, bp: bool, xor: bool, nats: bool) -> (v: Vec<FunSym>)
    ensures
        v.deep_view() == theory_syms(dh, bp, xor, nats),
{
    let mut v = no_items::<FunSym>();
    if dh {
        put(&mut v, plain_sym("DH_neutral", 0));
        put(&mut v, plain_sym("exp", 2));
        put(&mut v, plain_sym("inv", 1));
        put(&mut v, plain_sym("one", 0));
    }
    if bp {
        put(&mut v, plain_sym("pmult", 2));
    }
    if xor {
        put(&mut v, plain_sym("zero", 0));
    }
    if nats {
        put(&mut v, plain_sym("tone", 0));
    }
    assert(v.deep_view() =~= theory_syms(dh, bp, xor, nats));
    v
}

/// The options of the first of `syms` called `name`.
pub open spec fn first_opts(syms: Seq<FunSymM>, name: Seq<char>, i: int) -> Option<FunOptions>
    decreases syms.len() - i,
{
    if i < 0 || i >= syms.len() {
        None
    } else if syms[i].name == name {
        Some(syms[i].opts)
    } else {
        first_opts(syms, name, i + 1)
    }
}

/// The options of the first of `syms` called `name`.
pub fn find_opts(syms: &Vec<FunSym>, name: &str) -> (r: Option<FunOptions>)
    ensures
        r == first_opts(syms.deep_view(), name@, 0),
{
    let mut i: usize = 0;
    while i < syms.len()
        invariant
            i <= syms@.len(),
            first_opts(syms.deep_view(), name@, 0) == first_opts(
                syms.deep_view(),
                name@,
                i as int,
            ),
        decreases syms@.len() - i,
    {
        assert(syms.deep_view()[i as int].name == syms@[i as int].name@);
        if same(&syms[i].name, name) {
            return Some(syms[i].opts);
        }
        i = i + 1;
    }
    None
}

/// The smallest options that `best` and the first `n` of `syms` called `name` have.
pub open spec fn least_opts(
    syms: Seq<FunSymM>,
    name: Seq<char>,
    n: int,
    best: Option<FunOptions>,
) -> Option<FunOptions>
    decreases n,
{
    if n <= 0 {
        best
    } else {
        let b = least_opts(syms, name, n - 1, best);
        if syms[n - 1].name == name && (b is None || opts_lt(syms[n - 1].opts, b->0)) {
            Some(syms[n - 1].opts)
        } else {
            b
        }
    }
}

/// The smallest options that `best` and those of `syms` called `name` have.
pub fn smallest_opts(syms: &Vec<FunSym>, name: &str, best: Option<FunOptions>) -> (r: Option<
    FunOptions,
>)
    ensures
        r == least_opts(syms.deep_view(), name@, syms.deep_view().len() as int, best),
{
    let mut r: Option<FunOptions> = best;
    let mut i: usize = 0;
    while i < syms.len()
        invariant
            i <= syms@.len(),
            r == least_opts(syms.deep_view(), name@, i as int, best),
        decreases syms@.len() - i,
    {
        assert(syms.deep_view()[i as int].name == syms@[i as int].name@);
        if same(&syms[i].name, name) {
            let better = match r {
                Some(b) => syms[i].opts.before(&b),
                None => true,
            };
            if better {
                r = Some(syms[i].opts);
            }
        }
        i = i + 1;
    }
    r
}

/// Whether one of `syms` is called `name` and takes no arguments.
pub open spec fn constant_in(syms: Seq<FunSymM>, name: Seq<char>) -> bool {
    exists|i: int|
        0 <= i < syms.len() && (#[trigger] syms[i]).name == name && syms[i].opts.arity == 0
}

pub fn has_constant(syms: &Vec<FunSym>, name: &str) -> (r: bool)
    ensures
        r == constant_in(syms.deep_view(), name@),
{
    let mut i: usize = 0;
    while i < syms.len()
        invariant
            i <= syms@.len(),
            forall|j: int|
                0 <= j < i ==> !((#[trigger] syms.deep_view()[j]).name == name@
                    && syms.deep_view()[j].opts.arity == 0),
        decreases syms@.len() - i,
    {
        if same(&syms[i].name, name) && syms[i].opts.arity == 0 {
            assert(syms.deep_view()[i as int].name == name@);
            return true;
        }
        i = i + 1;
    }
    false
}

} // verus!
