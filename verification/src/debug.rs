//! Facts and terms as text.

use crate::ast::{BinOp, BinOpM, Fact, FactAnnotation, FactM, LSort, Term, TermM, VarM, VarSpec};
use crate::text::{ascii_digit, chars_of, decimal, is_digit, to_decimal};
use vstd::prelude::*;

verus! {

broadcast use crate::ast::group_models;

/// What the `Debug` form of a string slice is: quoted and escaped.
pub uninterp spec fn debug_text(s: Seq<char>) -> Seq<char>;

/// The `Debug` form that the standard library gives to `str`: the string
/// between quotes, with escapes for what would not print. It depends on the
/// string alone.
#[verifier::external_body]
pub(crate) fn debug_str(s: &str) -> (r: String)
    ensures
        r@ == debug_text(s@),
{
    format!("{s:?}")
}

pub open spec fn sort_name(s: LSort) -> Seq<char> {
    match s {
        LSort::Pub => "Pub"@,
        LSort::Fresh => "Fresh"@,
        LSort::Msg => "Msg"@,
        LSort::Node => "Node"@,
        LSort::Nat => "Nat"@,
    }
}

/// The sign before a variable of a sort.
pub open spec fn sort_prefix(s: LSort) -> Seq<char> {
    match s {
        LSort::Pub => "$"@,
        LSort::Fresh => "~"@,
        LSort::Msg => ""@,
        LSort::Node => "#"@,
        LSort::Nat => "%"@,
    }
}

pub open spec fn op_debug(op: BinOpM) -> Seq<char> {
    match op {
        BinOpM::Exp => "Exp"@,
        BinOpM::Mult => "Mult"@,
        BinOpM::Xor => "Xor"@,
        BinOpM::Union => "Union"@,
        BinOpM::NatPlus => "NatPlus"@,
        BinOpM::AcFct(f) => "AcFct("@ + debug_text(f) + ")"@,
    }
}

pub open spec fn var_debug(v: VarM) -> Seq<char> {
    "VarSpec { name: "@ + debug_text(v.name) + ", idx: "@ + decimal(v.idx as nat) + ", sort: "@
        + sort_name(v.sort) + ", typ: "@ + (match v.typ {
        Some(t) => "Some("@ + debug_text(t) + ")"@,
        None => "None"@,
    }) + " }"@
}

/// The structure of a term.
pub open spec fn term_debug(t: TermM) -> Seq<char>
    decreases t, 1int,
{
    match t {
        TermM::Var(v) => "Var("@ + var_debug(v) + ")"@,
        TermM::PubLit(s) => "PubLit("@ + debug_text(s) + ")"@,
        TermM::FreshLit(s) => "FreshLit("@ + debug_text(s) + ")"@,
        TermM::NatLit(s) => "NatLit("@ + debug_text(s) + ")"@,
        TermM::Number(n) => "Number("@ + decimal(n as nat) + ")"@,
        TermM::NumberOne => "NumberOne"@,
        TermM::NatOne => "NatOne"@,
        TermM::DhNeutral => "DhNeutral"@,
        TermM::App(f, args) => "App("@ + debug_text(f) + ", ["@ + terms_debug(
            args,
            args.len() as int,
        ) + "])"@,
        TermM::AlgApp(f, a, b) => "AlgApp("@ + debug_text(f) + ", "@ + term_debug(*a) + ", "@
            + term_debug(*b) + ")"@,
        TermM::Pair(args) => "Pair(["@ + terms_debug(args, args.len() as int) + "])"@,
        TermM::Diff(a, b) => "Diff("@ + term_debug(*a) + ", "@ + term_debug(*b) + ")"@,
        TermM::BinOp(op, a, b) => "BinOp("@ + op_debug(op) + ", "@ + term_debug(*a) + ", "@
            + term_debug(*b) + ")"@,
        TermM::PatMatch(a) => "PatMatch("@ + term_debug(*a) + ")"@,
    }
}

/// The first `n` terms with commas between them.
pub open spec fn terms_debug(ts: Seq<TermM>, n: int) -> Seq<char>
    decreases ts, n,
{
    if n <= 0 || n > ts.len() {
        ""@
    } else if n == 1 {
        term_debug(ts[0])
    } else {
        terms_debug(ts, n - 1) + ", "@ + term_debug(ts[n - 1])
    }
}

/// How an argument of the head of a predicate is shown: a variable as it is
/// written, anything else by its structure.
#[verifier::opaque]
pub open spec fn arg_text(t: TermM) -> Seq<char> {
    match t {
        TermM::Var(v) => sort_prefix(v.sort) + v.name + (if v.idx != 0 || (v.name.len() > 0
            && ascii_digit(v.name.last())) {
            "."@ + decimal(v.idx as nat)
        } else {
            ""@
        }),
        _ => term_debug(t),
    }
}

/// The first `n` arguments with commas between them.
pub open spec fn args_text(ts: Seq<TermM>, n: int) -> Seq<char>
    decreases n,
{
    if n <= 0 || n > ts.len() {
        ""@
    } else if n == 1 {
        arg_text(ts[0])
    } else {
        args_text(ts, n - 1) + ", "@ + arg_text(ts[n - 1])
    }
}

/// The annotations, each once, in the order `+`, `-`, `no_precomp`.
pub open spec fn annotations_text(v: Seq<FactAnnotation>) -> Seq<char> {
    let first = v.contains(FactAnnotation::SolveFirst);
    let last = v.contains(FactAnnotation::SolveLast);
    let none = v.contains(FactAnnotation::NoSources);
    if first || last || none {
        "["@ + (if first {
            "+"@
        } else {
            ""@
        }) + (if first && last {
            ", "@
        } else {
            ""@
        }) + (if last {
            "-"@
        } else {
            ""@
        }) + (if (first || last) && none {
            ", "@
        } else {
            ""@
        }) + (if none {
            "no_precomp"@
        } else {
            ""@
        }) + "]"@
    } else {
        ""@
    }
}

/// The head of a predicate.
#[verifier::opaque]
pub open spec fn fact_text(f: FactM) -> Seq<char> {
    (if f.persistent {
        "!"@
    } else {
        ""@
    }) + f.name + (if f.args.len() == 0 {
        "( )"@
    } else {
        "( "@ + args_text(f.args, f.args.len() as int) + " )"@
    }) + annotations_text(f.annotations)
}

fn name_of_sort(s: LSort) -> (r: &'static str)
    ensures
        r@ == sort_name(s),
{
    match s {
        LSort::Pub => "Pub",
        LSort::Fresh => "Fresh",
        LSort::Msg => "Msg",
        LSort::Node => "Node",
        LSort::Nat => "Nat",
    }
}

fn prefix_of_sort(s: LSort) -> (r: &'static str)
    ensures
        r@ == sort_prefix(s),
{
    match s {
        LSort::Pub => "$",
        LSort::Fresh => "~",
        LSort::Msg => "",
        LSort::Node => "#",
        LSort::Nat => "%",
    }
}

fn show_op(op: &BinOp) -> (r: String)
    ensures
        r@ == op_debug(op.deep_view()),
{
    match op {
        BinOp::Exp => "Exp".to_string(),
        BinOp::Mult => "Mult".to_string(),
        BinOp::Xor => "Xor".to_string(),
        BinOp::Union => "Union".to_string(),
        BinOp::NatPlus => "NatPlus".to_string(),
        BinOp::AcFct(f) => wrapped("AcFct(", &debug_str(f), ")"),
    }
}

fn wrapped(a: &str, b: &str, c: &str) -> (r: String)
    ensures
        r@ == a@ + b@ + c@,
{
    let mut r = a.to_string();
    r.push_str(b);
    r.push_str(c);
    r
}

fn show_var(v: &VarSpec) -> (r: String)
    ensures
        r@ == var_debug(v.deep_view()),
{
    let mut r = "VarSpec { name: ".to_string();
    r.push_str(&debug_str(&v.name));
    r.push_str(", idx: ");
    r.push_str(&to_decimal(v.idx));
    r.push_str(", sort: ");
    r.push_str(name_of_sort(v.sort));
    r.push_str(", typ: ");
    let t = match &v.typ {
        Some(t) => wrapped("Some(", &debug_str(t), ")"),
        None => "None".to_string(),
    };
    r.push_str(&t);
    r.push_str(" }");
    r
}

fn show_term(t: &Term) -> (r: String)
    ensures
        r@ == term_debug(t.deep_view()),
    decreases t, 1int,
{
    match t {
        Term::Var(v) => wrapped("Var(", &show_var(v), ")"),
        Term::PubLit(s) => wrapped("PubLit(", &debug_str(s), ")"),
        Term::FreshLit(s) => wrapped("FreshLit(", &debug_str(s), ")"),
        Term::NatLit(s) => wrapped("NatLit(", &debug_str(s), ")"),
        Term::Number(n) => wrapped("Number(", &to_decimal(*n), ")"),
        Term::NumberOne => "NumberOne".to_string(),
        Term::NatOne => "NatOne".to_string(),
        Term::DhNeutral => "DhNeutral".to_string(),
        Term::App(f, args) => {
            let mut r = wrapped("App(", &debug_str(f), ", [");
            r.push_str(&show_terms(args));
            r.push_str("])");
            r
        },
        Term::AlgApp(f, a, b) => {
            let mut r = wrapped("AlgApp(", &debug_str(f), ", ");
            r.push_str(&show_term(a));
            r.push_str(", ");
            r.push_str(&show_term(b));
            r.push_str(")");
            r
        },
        Term::Pair(args) => wrapped("Pair([", &show_terms(args), "])"),
        Term::Diff(a, b) => {
            let mut r = wrapped("Diff(", &show_term(a), ", ");
            r.push_str(&show_term(b));
            r.push_str(")");
            r
        },
        Term::BinOp(op, a, b) => {
            let mut r = wrapped("BinOp(", &show_op(op), ", ");
            r.push_str(&show_term(a));
            r.push_str(", ");
            r.push_str(&show_term(b));
            r.push_str(")");
            r
        },
        Term::PatMatch(a) => wrapped("PatMatch(", &show_term(a), ")"),
    }
}

fn show_terms(ts: &Vec<Term>) -> (r: String)
    ensures
        r@ == terms_debug(ts.deep_view(), ts.deep_view().len() as int),
    decreases ts, 1int,
{
    let mut r = "".to_string();
    let mut i: usize = 0;
    while i < ts.len()
        invariant
            i <= ts@.len(),
            r@ == terms_debug(ts.deep_view(), i as int),
        decreases ts@.len() - i,
    {
        let x = show_term(&ts[i]);
        assert(ts.deep_view()[i as int] == ts@[i as int].deep_view());
        if i == 0 {
            r = x;
        } else {
            r.push_str(", ");
            r.push_str(&x);
        }
        i = i + 1;
    }
    r
}

fn show_arg(t: &Term) -> (r: String)
    ensures
        r@ == arg_text(t.deep_view()),
{
    proof {
        reveal(arg_text);
    }
    match t {
        Term::Var(v) => {
            let mut r = prefix_of_sort(v.sort).to_string();
            r.push_str(&v.name);
            let name = chars_of(&v.name);
            let digit = name.len() > 0 && is_digit(name[name.len() - 1]);
            if v.idx != 0 || digit {
                r.push_str(".");
                r.push_str(&to_decimal(v.idx));
            } else {
                r.push_str("");
            }
            assert(r@ =~= arg_text(t.deep_view()));
            r
        },
        _ => show_term(t),
    }
}

fn show_args(ts: &Vec<Term>) -> (r: String)
    ensures
        r@ == args_text(ts.deep_view(), ts.deep_view().len() as int),
{
    let mut r = "".to_string();
    let mut i: usize = 0;
    while i < ts.len()
        invariant
            i <= ts@.len(),
            r@ == args_text(ts.deep_view(), i as int),
        decreases ts@.len() - i,
    {
        let x = show_arg(&ts[i]);
        assert(ts.deep_view()[i as int] == ts@[i as int].deep_view());
        if i == 0 {
            r = x;
        } else {
            r.push_str(", ");
            r.push_str(&x);
        }
        i = i + 1;
    }
    r
}

fn has_annotation(v: &Vec<FactAnnotation>, a: FactAnnotation) -> (r: bool)
    ensures
        r == v.deep_view().contains(a),
{
    let mut i: usize = 0;
    while i < v.len()
        invariant
            i <= v@.len(),
            forall|j: int| 0 <= j < i ==> v.deep_view()[j] != a,
        decreases v@.len() - i,
    {
        assert(v.deep_view()[i as int] == v@[i as int]);
        if v[i] == a {
            return true;
        }
        i = i + 1;
    }
    false
}

fn show_annotations(v: &Vec<FactAnnotation>) -> (r: String)
    ensures
        r@ == annotations_text(v.deep_view()),
{
    let first = has_annotation(v, FactAnnotation::SolveFirst);
    let last = has_annotation(v, FactAnnotation::SolveLast);
    let none = has_annotation(v, FactAnnotation::NoSources);
    if !first && !last && !none {
        return "".to_string();
    }
    let mut r = "[".to_string();
    r.push_str(
        if first {
            "+"
        } else {
            ""
        },
    );
    r.push_str(
        if first && last {
            ", "
        } else {
            ""
        },
    );
    r.push_str(
        if last {
            "-"
        } else {
            ""
        },
    );
    r.push_str(
        if (first || last) && none {
            ", "
        } else {
            ""
        },
    );
    r.push_str(
        if none {
            "no_precomp"
        } else {
            ""
        },
    );
    r.push_str("]");
    r
}

/// The head of a predicate.
pub fn pred_fact_text(f: &Fact) -> (r: String)
    ensures
        r@ == fact_text(f.deep_view()),
{
    proof {
        reveal(fact_text);
        reveal_strlit("");
    }
    let mut r = (if f.persistent {
        "!"
    } else {
        ""
    }).to_string();
    r.push_str(&f.name);
    if f.args.len() == 0 {
        r.push_str("( )");
    } else {
        let args = wrapped("( ", &show_args(&f.args), " )");
        r.push_str(&args);
    }
    r.push_str(&show_annotations(&f.annotations));
    r
}

} // verus!
