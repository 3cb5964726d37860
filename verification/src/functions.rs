//! Builtins and declared function symbols.

use crate::ast::{FunctionDecl, FunctionDeclM};
use crate::basics::{dashed_ident, item_ended, labels1};
use crate::error::{name_list, outcome, show_string_list, ErrorM, Message, MessageM, ParseError};
use crate::model::{no_items, one_item, put, put_all};
use crate::order::{
    law_names_are_an_ordered_set, law_symbols_are_an_ordered_set, lemma_all_admitted, orderly,
};
use crate::signature::{
    builtin_st_fun_syms, builtin_syms, builtins_with, find_opts, first_opts, insert_name,
    insert_sym, opts_text, owners, with_name, with_sym, FunOptions, FunSym, FunSymM,
};
use crate::state::{group_steps, ItemTail, Parser, SigM, Step, PS};
use crate::text::{chars_of, has_text, same};
use crate::vars::type_elem;
use vstd::prelude::*;

verus! {

broadcast use {group_steps, crate::tokens::group_lexer};

/// How often a symbol of that name has other options among the first `n`:
/// the name that many times.
pub open spec fn clashes_of(k: FunSymM, syms: Seq<FunSymM>, n: int) -> Seq<Seq<char>>
    decreases n,
{
    if n <= 0 || n > syms.len() {
        Seq::empty()
    } else if syms[n - 1].name == k.name && syms[n - 1].opts != k.opts {
        clashes_of(k, syms, n - 1).push(k.name)
    } else {
        clashes_of(k, syms, n - 1)
    }
}

/// The names of the first `n` of `news` that `syms` has with other options.
pub open spec fn clashes(news: Seq<FunSymM>, syms: Seq<FunSymM>, n: int) -> Seq<Seq<char>>
    decreases n,
{
    if n <= 0 || n > news.len() {
        Seq::empty()
    } else {
        clashes(news, syms, n - 1) + clashes_of(news[n - 1], syms, syms.len() as int)
    }
}

/// The names of the first `n` of `news` whose first macro has other options.
pub open spec fn macro_clashes(news: Seq<FunSymM>, macros: Seq<FunSymM>, n: int) -> Seq<Seq<char>>
    decreases n,
{
    if n <= 0 || n > news.len() {
        Seq::empty()
    } else {
        let k = news[n - 1];
        let before = macro_clashes(news, macros, n - 1);
        match first_opts(macros, k.name, 0) {
            Some(o) => if o != k.opts {
                before.push(k.name)
            } else {
                before
            },
            None => before,
        }
    }
}

/// The names of the symbols.
pub open spec fn names_of(syms: Seq<FunSymM>) -> Seq<Seq<char>> {
    Seq::new(syms.len(), |i: int| syms[i].name)
}

/// The symbols other than `k`.
pub open spec fn without(syms: Seq<FunSymM>, k: FunSymM) -> Seq<FunSymM>
    decreases syms.len(),
{
    if syms.len() == 0 {
        Seq::empty()
    } else {
        let rest = without(syms.drop_last(), k);
        if syms.last() == k {
            rest
        } else {
            rest.push(syms.last())
        }
    }
}

/// The projection `k` of pairs in its other variant.
pub open spec fn other_variant(k: FunSymM) -> FunSymM {
    FunSymM { opts: FunOptions { destructor: !k.opts.destructor, ..k.opts }, ..k }
}

pub open spec fn projection(name: Seq<char>) -> bool {
    name == "fst"@ || name == "snd"@
}

/// The symbols with `k` put in; a projection of pairs puts the other variant out.
pub open spec fn admitted(syms: Seq<FunSymM>, k: FunSymM) -> Seq<FunSymM> {
    if projection(k.name) {
        with_sym(without(syms, other_variant(k)), k)
    } else {
        with_sym(syms, k)
    }
}

/// The symbols with the first `n` of `news` put in.
pub open spec fn all_admitted(syms: Seq<FunSymM>, news: Seq<FunSymM>, n: int) -> Seq<FunSymM>
    decreases n,
{
    if n <= 0 || n > news.len() {
        syms
    } else {
        admitted(all_admitted(syms, news, n - 1), news[n - 1])
    }
}

/// The signature with the theory of a builtin switched on.
#[verifier::opaque]
pub open spec fn switched_on(sig: SigM, name: Seq<char>) -> SigM {
    if name == "diffie-hellman"@ {
        SigM { enable_dh: true, ..sig }
    } else if name == "bilinear-pairing"@ {
        SigM { enable_bp: true, enable_dh: true, ..sig }
    } else if name == "xor"@ {
        SigM { enable_xor: true, ..sig }
    } else if name == "multiset"@ {
        SigM { enable_mset: true, ..sig }
    } else if name == "natural-numbers"@ {
        SigM { enable_nat: true, ..sig }
    } else {
        sig
    }
}

pub open spec fn with_sig(s: PS, sig: SigM) -> PS {
    PS { sig, ..s }
}

pub open spec fn fun_clash_message(name: Seq<char>, names: Seq<Seq<char>>) -> Seq<char> {
    "Builtin '"@ + name
        + "' conflicts with existing function(s) (same name, different arity or function options): "@
        + name_list(names) + ". Please remove these function definitions or use different names."@
}

pub open spec fn macro_clash_message(name: Seq<char>, names: Seq<Seq<char>>) -> Seq<char> {
    "Builtin '"@ + name + "' conflicts with existing macro '"@ + name_list(names) + "'"@
}

/// The signature with the symbols of a builtin.
pub open spec fn with_builtin(sig: SigM, syms: Seq<FunSymM>, reserve: bool) -> SigM {
    SigM {
        fun_syms: all_admitted(sig.fun_syms, syms, syms.len() as int),
        reserved_builtin_names: if reserve {
            sig.reserved_builtin_names + names_of(syms)
        } else {
            sig.reserved_builtin_names
        },
        ..sig
    }
}

/// The state with a builtin enabled. Outside of diff theories its symbols
/// must not be there with other options; names without symbols are passed over.
#[verifier::opaque]
pub open spec fn builtin_enabled(s: PS, name: Seq<char>) -> Step<()> {
    match builtin_syms(name) {
        None => (Ok(()), s),
        Some(syms) => {
            let sig = switched_on(s.sig, name);
            let s1 = with_sig(s, sig);
            let n = syms.len() as int;
            let funs = clashes(syms, sig.fun_syms, n);
            let macros = macro_clashes(syms, sig.macro_syms, n);
            if !s.place.is_diff && name != "dest-pairing"@ && funs.len() > 0 {
                s1.fail_msg(fun_clash_message(name, funs))
            } else if !s.place.is_diff && macros.len() > 0 {
                s1.fail_msg(macro_clash_message(name, macros))
            } else {
                (Ok(()), with_sig(s1, with_builtin(sig, syms, !s.place.is_diff)))
            }
        },
    }
}

/// The builtins behind `acc`.
pub open spec fn more_builtins(s: PS, acc: Seq<Seq<char>>) -> Step<Seq<Seq<char>>>
    decreases s.rem(),
{
    match dashed_ident(s) {
        (Err(e), s1) => (Err(e), s1),
        (Ok(name), s1) => match builtin_enabled(s1, name) {
            (Err(e), s2) => (Err(e), s2),
            (Ok(_), s2) => {
                let (more, s3) = s2.punct(","@);
                if more && s.ahead(s3) && s.at < s3.at {
                    more_builtins(s3, acc.push(name))
                } else {
                    (Ok(acc.push(name)), item_ended(s3, ItemTail::Comma))
                }
            },
        },
    }
}

/// The builtins of a theory.
#[verifier::opaque]
pub open spec fn builtins(s: PS) -> Step<Seq<Seq<char>>> {
    match s.need_kw("builtins"@) {
        (Err(e), s1) => (Err(e), s1),
        (Ok(_), s1) => match s1.need(":"@) {
            (Err(e), s2) => (Err(e), s2),
            (Ok(_), s2) => more_builtins(s2, Seq::empty()),
        },
    }
}

/// What a type could have started with.
pub open spec fn type_labels() -> Seq<Seq<char>> {
    seq!["\"Any\""@, "identifier"@]
}

/// The end of a list of argument types. `end` is where the last type ended,
/// `missing` says that a type was expected next.
#[verifier::opaque]
pub open spec fn arg_types_end(
    s: PS,
    args: Seq<Option<Seq<char>>>,
    end: Option<usize>,
    missing: bool,
) -> Step<Seq<Option<Seq<char>>>> {
    let w = s.ws();
    let (close, s1) = w.punct(")"@);
    if close {
        (Ok(args), s1)
    } else {
        s1.fail_expect(
            (if end is Some && end->0 == w.offset() {
                seq!["letter or digit"@]
            } else {
                Seq::empty()
            }) + (if missing {
                type_labels()
            } else {
                seq!["\",\""@]
            }) + seq!["\")\""@],
        )
    }
}

/// The argument types behind `args`.
pub open spec fn more_arg_types(s: PS, args: Seq<Option<Seq<char>>>, end: Option<usize>) -> Step<
    Seq<Option<Seq<char>>>,
>
    decreases s.rem(),
{
    let (more, s1) = s.punct(","@);
    if !more {
        arg_types_end(s1, args, end, false)
    } else {
        match type_elem(s1) {
            (Some((t, e)), s2) => if s1.past(s2) {
                more_arg_types(s2, args.push(t), e)
            } else {
                (Ok(args), s2)
            },
            (None, s2) => arg_types_end(s2, args, None, true),
        }
    }
}

/// The argument types of a function, behind the opening parenthesis.
#[verifier::opaque]
pub open spec fn arg_types(s: PS) -> Step<Seq<Option<Seq<char>>>> {
    match type_elem(s) {
        (Some((t, e)), s1) => more_arg_types(s1, seq![t], e),
        (None, s1) => arg_types_end(s1, Seq::empty(), None, true),
    }
}

/// The type of a function: its number of arguments, or their types. `end` is
/// where the name of the function ended.
#[verifier::opaque]
pub open spec fn function_type(s: PS, end: usize) -> Step<
    (Seq<Option<Seq<char>>>, Option<Seq<char>>),
> {
    let (slash, s1) = s.punct("/"@);
    let (open, s2) = s1.punct("("@);
    if slash {
        match s1.natural() {
            (Some(k), t) => (Ok((no_types(k), None)), t),
            (None, t) => t.fail_expect(seq!["natural"@]),
        }
    } else if !open {
        let w = s2.ws();
        w.fail_expect(
            if w.offset() == end {
                seq!["letter or digit"@, "\"/\""@, "\"(\""@]
            } else {
                seq!["\"/\""@, "\"(\""@]
            },
        )
    } else {
        match arg_types(s2) {
            (Err(e), t) => (Err(e), t),
            (Ok(args), t) => match t.need(":"@) {
                (Err(e), u) => (Err(e), u),
                (Ok(_), u) => match type_elem(u) {
                    (Some((out, _)), v) => (Ok((args, out)), v),
                    (None, v) => v.fail_expect(type_labels()),
                },
            },
        }
    }
}

/// The types of `k` arguments that are not given.
pub open spec fn no_types(k: u64) -> Seq<Option<Seq<char>>> {
    Seq::new((k as usize) as nat, |i: int| None::<Seq<char>>)
}

/// The attributes of a declared function.
#[derive(Debug, Clone, Copy, PartialEq, Eq, Structural)]
pub struct FctAttrs {
    pub private: bool,
    pub destructor: bool,
    pub ac: bool,
    pub ndc: bool,
    pub ndc_diff: bool,
}

pub open spec fn no_attrs() -> FctAttrs {
    FctAttrs { private: false, destructor: false, ac: false, ndc: false, ndc_diff: false }
}

/// The attributes with the one that comes next, if one does.
#[verifier::opaque]
pub open spec fn function_attr(s: PS, a: FctAttrs) -> (Option<FctAttrs>, PS) {
    let w = s.ws();
    let (private, s1) = w.kw("private"@);
    let (destructor, s2) = w.kw("destructor"@);
    let (constructor, s3) = w.kw("constructor"@);
    let (ac, s4) = w.kw("AC"@);
    let (ndc_diff, s5) = w.kw("NDC-diff"@);
    let (ndc, s6) = w.kw("NDC"@);
    if private {
        (Some(FctAttrs { private: true, ..a }), s1)
    } else if destructor {
        (Some(FctAttrs { destructor: true, ..a }), s2)
    } else if constructor {
        (Some(a), s3)
    } else if ac {
        (Some(FctAttrs { ac: true, ..a }), s4)
    } else if ndc_diff {
        (Some(FctAttrs { ndc_diff: true, ..a }), s5)
    } else if ndc {
        (Some(FctAttrs { ndc: true, ..a }), s6)
    } else {
        (None, w)
    }
}

pub open spec fn more_function_attrs(s: PS, a: FctAttrs) -> Step<FctAttrs>
    decreases s.rem(),
{
    match function_attr(s, a) {
        (None, s1) => function_attrs_end(s1, a),
        (Some(b), s1) => {
            let (more, s2) = s1.punct(","@);
            if more && s.past(s1) {
                more_function_attrs(s2, b)
            } else {
                function_attrs_end(s2, b)
            }
        },
    }
}

pub open spec fn function_attrs_end(s: PS, a: FctAttrs) -> Step<FctAttrs> {
    match s.need("]"@) {
        (Ok(_), s1) => (Ok(a), s1),
        (Err(e), s1) => (Err(e), s1),
    }
}

/// The attributes of a function, and whether there is a list of them.
#[verifier::opaque]
pub open spec fn function_attrs(s: PS) -> Step<(FctAttrs, bool)> {
    let (open, s1) = s.punct("["@);
    if !open {
        (Ok((no_attrs(), false)), s1)
    } else {
        match more_function_attrs(s1, no_attrs()) {
            (Err(e), s2) => (Err(e), s2),
            (Ok(a), s2) => (Ok((a, true)), s2),
        }
    }
}

/// A message behind a declaration that may have had attributes.
#[verifier::opaque]
pub open spec fn fail_decl<T>(s: PS, had: bool, msg: Seq<char>) -> Step<T> {
    let w = s.ws();
    let found = seq![MessageM::SysUnExpect(w.token()), MessageM::Message(msg)];
    (
        Err(
            w.error(
                if had {
                    found
                } else {
                    found.push(MessageM::Expect("\"[\""@))
                },
            ),
        ),
        w,
    )
}

pub open spec fn builtin_conflict_message(name: Seq<char>, b: FunOptions, r: FunOptions) -> Seq<
    char,
> {
    "`"@ + name + "` conflicts with builtin(s) "@ + name_list(
        owners(name, crate::signature::builtin_names().len() as int),
    ) + " (builtin: "@ + opts_text(b) + ", requested: "@ + opts_text(r) + ")"@
}

pub open spec fn arity_conflict_message(name: Seq<char>, p: FunOptions, r: FunOptions) -> Seq<
    char,
> {
    "conflicting arities/options "@ + opts_text(p) + " and "@ + opts_text(r) + " for `"@ + name
        + "`. Please choose a different name for this function."@
}

/// The options of the first symbol or else macro of that name.
pub open spec fn known_opts(sig: SigM, name: Seq<char>) -> Option<FunOptions> {
    match first_opts(sig.fun_syms, name, 0) {
        Some(o) => Some(o),
        None => first_opts(sig.macro_syms, name, 0),
    }
}

pub open spec fn requested(n: int, a: FctAttrs) -> FunOptions {
    FunOptions {
        arity: n as usize,
        private: a.private,
        destructor: a.destructor,
        ndc: a.ndc,
        ndc_diff: a.ndc_diff,
    }
}

pub open spec fn declared(
    name: Seq<char>,
    args: Seq<Option<Seq<char>>>,
    out: Option<Seq<char>>,
    o: FunOptions,
    ac: bool,
) -> FunctionDeclM {
    FunctionDeclM {
        name,
        arg_types: args,
        out_type: out,
        private: o.private,
        destructor: o.destructor,
        ac,
        ndc: o.ndc,
        ndc_diff: o.ndc_diff,
    }
}

/// Declares a function that the signature does not know.
#[verifier::opaque]
pub open spec fn declare_new(
    s: PS,
    name: Seq<char>,
    args: Seq<Option<Seq<char>>>,
    out: Option<Seq<char>>,
    a: FctAttrs,
    had: bool,
) -> Step<FunctionDeclM> {
    let r = requested(args.len() as int, a);
    if a.ac {
        if args.len() != 2 {
            fail_decl(s, had, "conflicting arity : AC function must be binary"@)
        } else {
            (
                Ok(declared(name, args, out, r, true)),
                with_sig(s, SigM { ac_fun_syms: with_name(s.sig.ac_fun_syms, name), ..s.sig }),
            )
        }
    } else {
        (
            Ok(declared(name, args, out, r, false)),
            with_sig(
                s,
                SigM {
                    fun_syms: with_sym(s.sig.fun_syms, (FunSymM { name, opts: r })),
                    ..s.sig
                },
            ),
        )
    }
}

/// Declares a function: it agrees with the builtin that reserves its name,
/// and with what the signature holds. The projections of pairs keep the
/// options they have.
#[verifier::opaque]
pub open spec fn declare(
    s: PS,
    name: Seq<char>,
    args: Seq<Option<Seq<char>>>,
    out: Option<Seq<char>>,
    a: FctAttrs,
    had: bool,
) -> Step<FunctionDeclM> {
    let r = requested(args.len() as int, a);
    let reserved = first_opts(s.sig.fun_syms, name, 0);
    if s.sig.reserved_builtin_names.contains(name) && reserved is Some && reserved->0 != r {
        fail_decl(s, had, builtin_conflict_message(name, reserved->0, r))
    } else {
        match known_opts(s.sig, name) {
            Some(p) => if p != r && !(projection(name) && args.len() == 1 && !a.private) {
                fail_decl(s, had, arity_conflict_message(name, p, r))
            } else if projection(name) {
                (Ok(declared(name, args, out, p, false)), s)
            } else {
                declare_new(s, name, args, out, a, had)
            },
            None => declare_new(s, name, args, out, a, had),
        }
    }
}

/// A declaration of a function, and whether it has a list of attributes.
#[verifier::opaque]
pub open spec fn function_decl(s: PS) -> Step<(FunctionDeclM, bool)> {
    let w = s.ws();
    match w.ident() {
        (Err(e), s1) => (Err(e), s1),
        (Ok(name), s1) => match function_type(
            s1,
            crate::basics::word_offset(w.src, w.at, name.len() as int),
        ) {
            (Err(e), s2) => (Err(e), s2),
            (Ok((args, out)), s2) => match function_attrs(s2) {
                (Err(e), s3) => (Err(e), s3),
                (Ok((a, had)), s3) => match declare(s3, name, args, out, a, had) {
                    (Err(e), s4) => (Err(e), s4),
                    (Ok(d), s4) => (Ok((d, had)), s4),
                },
            },
        },
    }
}

/// The declarations behind `acc`.
pub open spec fn more_functions(s: PS, acc: Seq<FunctionDeclM>) -> Step<Seq<FunctionDeclM>>
    decreases s.rem(),
{
    match function_decl(s) {
        (Err(e), s1) => (Err(e), s1),
        (Ok((d, had)), s1) => {
            let (more, s2) = s1.punct(","@);
            if more && s.ahead(s1) {
                more_functions(s2, acc.push(d))
            } else {
                (
                    Ok(acc.push(d)),
                    item_ended(
                        s2,
                        if had {
                            ItemTail::Comma
                        } else {
                            ItemTail::BracketComma
                        },
                    ),
                )
            }
        },
    }
}

/// The functions that a theory declares.
#[verifier::opaque]
pub open spec fn functions(s: PS) -> Step<Seq<FunctionDeclM>> {
    let (plural, s1) = s.kw("functions"@);
    match (if plural { (Ok::<(), ErrorM>(()), s1) } else { s1.need_kw("function"@) }) {
        (Err(e), s2) => (Err(e), s2),
        (Ok(_), s2) => match s2.need(":"@) {
            (Err(e), s3) => (Err(e), s3),
            (Ok(_), s3) => more_functions(s3, Seq::empty()),
        },
    }
}

fn collect_clashes(news: &Vec<FunSym>, syms: &Vec<FunSym>) -> (r: Vec<String>)
    ensures
        r.deep_view() == clashes(
            news.deep_view(),
            syms.deep_view(),
            news.deep_view().len() as int,
        ),
{
    let mut r = no_items::<String>();
    let mut i: usize = 0;
    while i < news.len()
        invariant
            i <= news@.len(),
            r.deep_view() == clashes(news.deep_view(), syms.deep_view(), i as int),
        decreases news@.len() - i,
    {
        let k = &news[i];
        let ghost before = r.deep_view();
        let ghost km = k.deep_view();
        let mut j: usize = 0;
        assert(r.deep_view() =~= before + clashes_of(km, syms.deep_view(), 0));
        while j < syms.len()
            invariant
                j <= syms@.len(),
                km == k.deep_view(),
                r.deep_view() == before + clashes_of(km, syms.deep_view(), j as int),
            decreases syms@.len() - j,
        {
            assert(syms.deep_view()[j as int] == syms@[j as int].deep_view());
            if same(&syms[j].name, &k.name) && syms[j].opts != k.opts {
                put(&mut r, k.name.clone());
            }
            j = j + 1;
            assert(r.deep_view() =~= before + clashes_of(km, syms.deep_view(), j as int));
        }
        i = i + 1;
        assert(news.deep_view()[i - 1] == km);
    }
    r
}

fn collect_macro_clashes(news: &Vec<FunSym>, macros: &Vec<FunSym>) -> (r: Vec<String>)
    ensures
        r.deep_view() == macro_clashes(
            news.deep_view(),
            macros.deep_view(),
            news.deep_view().len() as int,
        ),
{
    let mut r = no_items::<String>();
    let mut i: usize = 0;
    while i < news.len()
        invariant
            i <= news@.len(),
            r.deep_view() == macro_clashes(news.deep_view(), macros.deep_view(), i as int),
        decreases news@.len() - i,
    {
        assert(news.deep_view()[i as int] == news@[i as int].deep_view());
        match find_opts(macros, &news[i].name) {
            Some(o) => {
                if o != news[i].opts {
                    put(&mut r, news[i].name.clone());
                }
            },
            None => {},
        }
        i = i + 1;
    }
    r
}

fn remove_sym(syms: &Vec<FunSym>, name: &str, opts: FunOptions) -> (r: Vec<FunSym>)
    ensures
        r.deep_view() == without(syms.deep_view(), (FunSymM { name: name@, opts })),
{
    let mut r = no_items::<FunSym>();
    let mut i: usize = 0;
    assert(syms.deep_view().take(0) =~= Seq::<FunSymM>::empty());
    while i < syms.len()
        invariant
            i <= syms@.len(),
            r.deep_view() == without(
                syms.deep_view().take(i as int),
                (FunSymM { name: name@, opts }),
            ),
        decreases syms@.len() - i,
    {
        if !(same(&syms[i].name, name) && syms[i].opts == opts) {
            put(&mut r, FunSym { name: syms[i].name.clone(), opts: syms[i].opts });
        }
        i = i + 1;
        proof {
            let t = syms.deep_view().take(i as int);
            assert(t.drop_last() =~= syms.deep_view().take(i - 1));
            assert(t.last() == syms@[i - 1].deep_view());
        }
    }
    assert(syms.deep_view().take(i as int) =~= syms.deep_view());
    r
}

fn is_projection(name: &str) -> (r: bool)
    ensures
        r == projection(name@),
{
    same(name, "fst") || same(name, "snd")
}

fn admit_all(syms: &mut Vec<FunSym>, news: &Vec<FunSym>)
    ensures
        final(syms).deep_view() == all_admitted(
            old(syms).deep_view(),
            news.deep_view(),
            news.deep_view().len() as int,
        ),
{
    let mut i: usize = 0;
    while i < news.len()
        invariant
            i <= news@.len(),
            syms.deep_view() == all_admitted(old(syms).deep_view(), news.deep_view(), i as int),
        decreases news@.len() - i,
    {
        let k = &news[i];
        assert(news.deep_view()[i as int] == k.deep_view());
        if is_projection(&k.name) {
            let other = FunOptions { destructor: !k.opts.destructor, ..k.opts };
            *syms = remove_sym(syms, &k.name, other);
        }
        insert_sym(syms, &k.name, k.opts);
        i = i + 1;
    }
}

fn sym_names(syms: &Vec<FunSym>) -> (r: Vec<String>)
    ensures
        r.deep_view() == names_of(syms.deep_view()),
{
    let mut r = no_items::<String>();
    let mut i: usize = 0;
    while i < syms.len()
        invariant
            i <= syms@.len(),
            r.deep_view() == names_of(syms.deep_view()).take(i as int),
        decreases syms@.len() - i,
    {
        put(&mut r, syms[i].name.clone());
        i = i + 1;
        assert(r.deep_view() =~= names_of(syms.deep_view()).take(i as int));
    }
    assert(r.deep_view() =~= names_of(syms.deep_view()));
    r
}

fn fun_clash_text(name: &str, names: &Vec<String>) -> (m: String)
    ensures
        m@ == fun_clash_message(name@, names.deep_view()),
{
    let mut m = "Builtin '".to_string();
    m.push_str(name);
    m.push_str(
        "' conflicts with existing function(s) (same name, different arity or function options): ",
    );
    m.push_str(&show_string_list(names));
    m.push_str(". Please remove these function definitions or use different names.");
    m
}

fn macro_clash_text(name: &str, names: &Vec<String>) -> (m: String)
    ensures
        m@ == macro_clash_message(name@, names.deep_view()),
{
    let mut m = "Builtin '".to_string();
    m.push_str(name);
    m.push_str("' conflicts with existing macro '");
    m.push_str(&show_string_list(names));
    m.push_str("'");
    m
}

fn builtin_conflict_text(name: &str, b: &FunOptions, r: &FunOptions) -> (m: String)
    ensures
        m@ == builtin_conflict_message(name@, *b, *r),
{
    let mut m = "`".to_string();
    m.push_str(name);
    m.push_str("` conflicts with builtin(s) ");
    m.push_str(&show_string_list(&builtins_with(name)));
    m.push_str(" (builtin: ");
    m.push_str(&b.show());
    m.push_str(", requested: ");
    m.push_str(&r.show());
    m.push_str(")");
    m
}

fn arity_conflict_text(name: &str, p: &FunOptions, r: &FunOptions) -> (m: String)
    ensures
        m@ == arity_conflict_message(name@, *p, *r),
{
    let mut m = "conflicting arities/options ".to_string();
    m.push_str(&p.show());
    m.push_str(" and ");
    m.push_str(&r.show());
    m.push_str(" for `");
    m.push_str(name);
    m.push_str("`. Please choose a different name for this function.");
    m
}

fn untyped(k: u64) -> (v: Vec<Option<String>>)
    ensures
        v.deep_view() == no_types(k),
{
    let n: usize = k as usize;
    let mut v = no_items::<Option<String>>();
    let mut i: usize = 0;
    while i < n
        invariant
            i <= n,
            n == k as usize,
            v.deep_view() == no_types(k).take(i as int),
        decreases n - i,
    {
        put(&mut v, None);
        i = i + 1;
        assert(v.deep_view() =~= no_types(k).take(i as int));
    }
    assert(v.deep_view() =~= no_types(k));
    v
}

impl Parser {
    fn switch_on(&mut self, name: &str)
        requires
            old(self).wf(),
        ensures
            final(self).wf(),
            final(self)@ == with_sig(old(self)@, switched_on(old(self)@.sig, name@)),
    {
        proof {
            reveal(switched_on);
        }
        if same(name, "diffie-hellman") {
            self.sig.enable_dh = true;
        } else if same(name, "bilinear-pairing") {
            self.sig.enable_bp = true;
            self.sig.enable_dh = true;
        } else if same(name, "xor") {
            self.sig.enable_xor = true;
        } else if same(name, "multiset") {
            self.sig.enable_mset = true;
        } else if same(name, "natural-numbers") {
            self.sig.enable_nat = true;
        }
    }

    /// Enables a builtin.
    #[verifier::spinoff_prover]
    pub fn enable_builtin(&mut self, name: &str) -> (r: Result<(), ParseError>)
        requires
            old(self).wf(),
        ensures
            final(self).wf(),
            (outcome(r), final(self)@) == builtin_enabled(old(self)@, name@),
            old(self)@.extends(final(self)@),
    {
        proof {
            reveal(builtin_enabled);
        }
        let syms = match builtin_st_fun_syms(name) {
            Some(syms) => syms,
            None => {
                return Ok(());
            },
        };
        self.switch_on(name);
        assert(self@.sig == switched_on(old(self)@.sig, name@));
        let ghost on = self@;
        proof {
            reveal(switched_on);
            reveal(orderly);
        }
        if !self.place.is_diff {
            let funs = collect_clashes(&syms, &self.sig.fun_syms);
            if !same(name, "dest-pairing") && funs.len() > 0 {
                return Err(self.err_fail(&fun_clash_text(name, &funs)));
            }
            let macros = collect_macro_clashes(&syms, &self.sig.macro_syms);
            if macros.len() > 0 {
                return Err(self.err_fail(&macro_clash_text(name, &macros)));
            }
            put_all(&mut self.sig.reserved_builtin_names, sym_names(&syms));
        }
        admit_all(&mut self.sig.fun_syms, &syms);
        assert(self@ == with_sig(
            on,
            with_builtin(on.sig, syms.deep_view(), !old(self)@.place.is_diff),
        ));
        proof {
            if orderly(old(self)@.sig) {
                lemma_all_admitted(
                    on.sig.fun_syms,
                    syms.deep_view(),
                    syms@.len() as int,
                );
            }
        }
        Ok(())
    }

    /// The builtins of a theory.
    #[verifier::spinoff_prover]
    pub fn builtins(&mut self) -> (r: Result<Vec<String>, ParseError>)
        requires
            old(self).wf(),
        ensures
            final(self).wf(),
            (outcome(r), final(self)@) == builtins(old(self)@),
            old(self)@.extends(final(self)@),
            r is Ok ==> old(self)@.at < final(self)@.at,
    {
        proof {
            reveal(builtins);
        }
        self.require_kw("builtins")?;
        self.require_punct(":")?;
        let mut names = no_items::<String>();
        loop
            invariant
                self.wf(),
                old(self)@.extends(self@),
                old(self)@.at < self@.at,
                more_builtins(self@, names.deep_view()) == builtins(old(self)@),
            decreases self@.rem(),
        {
            let name = self.hyphen_identifier()?;
            self.enable_builtin(&name)?;
            put(&mut names, name);
            if !self.try_punct(",") {
                self.set_item_hangover(ItemTail::Comma);
                return Ok(names);
            }
        }
    }

    fn finish_arg_types(
        &mut self,
        args: Vec<Option<String>>,
        end: Option<usize>,
        missing: bool,
    ) -> (r: Result<Vec<Option<String>>, ParseError>)
        requires
            old(self).wf(),
        ensures
            final(self).wf(),
            (outcome(r), final(self)@) == arg_types_end(
                old(self)@,
                args.deep_view(),
                end,
                missing,
            ),
            old(self)@.past(final(self)@),
    {
        proof {
            reveal(arg_types_end);
        }
        self.skip_ws();
        let off = self.offset();
        if self.try_punct(")") {
            return Ok(args);
        }
        let hangs = match end {
            Some(e) => e == off,
            None => false,
        };
        let mut v = no_items::<String>();
        if hangs {
            put(&mut v, "letter or digit".to_string());
        }
        if missing {
            put(&mut v, "\"Any\"".to_string());
            put(&mut v, "identifier".to_string());
        } else {
            put(&mut v, "\",\"".to_string());
        }
        put(&mut v, "\")\"".to_string());
        assert(v.deep_view() =~= (if hangs {
            seq!["letter or digit"@]
        } else {
            Seq::empty()
        }) + (if missing {
            type_labels()
        } else {
            seq!["\",\""@]
        }) + seq!["\")\""@]);
        Err(self.err_expect(v))
    }

    #[verifier::spinoff_prover]
    fn function_arg_types(&mut self) -> (r: Result<Vec<Option<String>>, ParseError>)
        requires
            old(self).wf(),
        ensures
            final(self).wf(),
            (outcome(r), final(self)@) == arg_types(old(self)@),
            old(self)@.past(final(self)@),
    {
        proof {
            reveal(arg_types);
        }
        let mut args = no_items::<Option<String>>();
        let mut end: Option<usize> = None;
        match self.type_p_element() {
            Some((t, e)) => {
                put(&mut args, t);
                assert(args.deep_view() =~= seq![t.deep_view()]);
                end = e;
            },
            None => {
                return self.finish_arg_types(args, None, true);
            },
        }
        loop
            invariant
                self.wf(),
                old(self)@.past(self@),
                more_arg_types(self@, args.deep_view(), end) == arg_types(old(self)@),
            decreases self@.rem(),
        {
            if !self.try_punct(",") {
                return self.finish_arg_types(args, end, false);
            }
            match self.type_p_element() {
                Some((t, e)) => {
                    put(&mut args, t);
                    end = e;
                },
                None => {
                    return self.finish_arg_types(args, None, true);
                },
            }
        }
    }

    #[verifier::spinoff_prover]
    fn function_type(&mut self, end: usize) -> (r: Result<
        (Vec<Option<String>>, Option<String>),
        ParseError,
    >)
        requires
            old(self).wf(),
        ensures
            final(self).wf(),
            (outcome(r), final(self)@) == function_type(old(self)@, end),
            old(self)@.past(final(self)@),
    {
        proof {
            reveal(function_type);
        }
        if self.try_punct("/") {
            return match self.natural() {
                Some(k) => Ok((untyped(k), None)),
                None => Err(self.err_expect(labels1("natural"))),
            };
        }
        if !self.try_punct("(") {
            self.skip_ws();
            let off = self.offset();
            let mut v = no_items::<String>();
            if off == end {
                put(&mut v, "letter or digit".to_string());
            }
            put(&mut v, "\"/\"".to_string());
            put(&mut v, "\"(\"".to_string());
            assert(off == end ==> v.deep_view() =~= seq!["letter or digit"@, "\"/\""@, "\"(\""@]);
            assert(off != end ==> v.deep_view() =~= seq!["\"/\""@, "\"(\""@]);
            return Err(self.err_expect(v));
        }
        let args = self.function_arg_types()?;
        self.require_punct(":")?;
        match self.type_p_element() {
            Some((out, _)) => Ok((args, out)),
            None => {
                let mut v = labels1("\"Any\"");
                put(&mut v, "identifier".to_string());
                assert(v.deep_view() =~= type_labels());
                Err(self.err_expect(v))
            },
        }
    }

    fn function_attribute(&mut self, a: FctAttrs) -> (r: Option<FctAttrs>)
        requires
            old(self).wf(),
        ensures
            final(self).wf(),
            (r, final(self)@) == function_attr(old(self)@, a),
            old(self)@.past(final(self)@),
            r is Some ==> old(self)@.at < final(self)@.at,
    {
        proof {
            reveal(function_attr);
        }
        self.skip_ws();
        if self.try_kw("private") {
            Some(FctAttrs { private: true, ..a })
        } else if self.try_kw("destructor") {
            Some(FctAttrs { destructor: true, ..a })
        } else if self.try_kw("constructor") {
            Some(a)
        } else if self.try_kw("AC") {
            Some(FctAttrs { ac: true, ..a })
        } else if self.try_kw("NDC-diff") {
            Some(FctAttrs { ndc_diff: true, ..a })
        } else if self.try_kw("NDC") {
            Some(FctAttrs { ndc: true, ..a })
        } else {
            None
        }
    }

    fn function_attributes(&mut self) -> (r: Result<(FctAttrs, bool), ParseError>)
        requires
            old(self).wf(),
        ensures
            final(self).wf(),
            match function_attrs(old(self)@) {
                (Ok(x), s) => r is Ok && r->Ok_0 == x && final(self)@ == s,
                (Err(e), s) => r is Err && (r->Err_0).deep_view() == e && final(self)@ == s,
            },
            old(self)@.past(final(self)@),
    {
        proof {
            reveal(function_attrs);
        }
        let mut a = FctAttrs {
            private: false,
            destructor: false,
            ac: false,
            ndc: false,
            ndc_diff: false,
        };
        if !self.try_punct("[") {
            return Ok((a, false));
        }
        let ghost start = self@;
        loop
            invariant
                self.wf(),
                old(self)@.past(start),
                start.past(self@),
                more_function_attrs(self@, a) == more_function_attrs(start, no_attrs()),
                function_attrs(old(self)@) == (match more_function_attrs(start, no_attrs()) {
                    (Err(e), s2) => (Err(e), s2),
                    (Ok(x), s2) => (Ok((x, true)), s2),
                }),
            decreases self@.rem(),
        {
            match self.function_attribute(a) {
                Some(b) => {
                    a = b;
                    if !self.try_punct(",") {
                        self.require_punct("]")?;
                        return Ok((a, true));
                    }
                },
                None => {
                    self.require_punct("]")?;
                    return Ok((a, true));
                },
            }
        }
    }

    fn decl_failure(&mut self, had: bool, msg: &str) -> (e: ParseError)
        requires
            old(self).wf(),
        ensures
            final(self).wf(),
            (Err::<FunctionDeclM, ErrorM>(e.deep_view()), final(self)@) == fail_decl::<
                FunctionDeclM,
            >(old(self)@, had, msg@),
            old(self)@.past(final(self)@),
    {
        proof {
            reveal(fail_decl);
        }
        self.skip_ws();
        let mut v = one_item(Message::SysUnExpect(self.unexpected_token()));
        put(&mut v, Message::Message(msg.to_string()));
        assert(v.deep_view() =~= seq![
            MessageM::SysUnExpect(self@.token()),
            MessageM::Message(msg@),
        ]);
        if !had {
            put(&mut v, Message::Expect("\"[\"".to_string()));
        }
        self.error_here(v)
    }

    fn lookup_fun_options(&self, name: &str) -> (r: Option<FunOptions>)
        ensures
            r == known_opts(self@.sig, name@),
    {
        match find_opts(&self.sig.fun_syms, name) {
            Some(o) => Some(o),
            None => find_opts(&self.sig.macro_syms, name),
        }
    }

    #[verifier::spinoff_prover]
    fn declare_new_function(
        &mut self,
        name: String,
        args: Vec<Option<String>>,
        out: Option<String>,
        a: FctAttrs,
        had: bool,
    ) -> (r: Result<FunctionDecl, ParseError>)
        requires
            old(self).wf(),
        ensures
            final(self).wf(),
            (outcome(r), final(self)@) == declare_new(
                old(self)@,
                name@,
                args.deep_view(),
                out.deep_view(),
                a,
                had,
            ),
            old(self)@.extends(final(self)@),
    {
        proof {
            reveal(declare_new);
            reveal(fail_decl);
        }
        let n: usize = args.len();
        if a.ac {
            if n != 2 {
                return Err(
                    self.decl_failure(had, "conflicting arity : AC function must be binary"),
                );
            }
            insert_name(&mut self.sig.ac_fun_syms, &name);
            proof {
                reveal(orderly);
                if orderly(old(self)@.sig) {
                    law_names_are_an_ordered_set(old(self)@.sig.ac_fun_syms, name@);
                }
            }
        } else {
            let opts = FunOptions {
                arity: n,
                private: a.private,
                destructor: a.destructor,
                ndc: a.ndc,
                ndc_diff: a.ndc_diff,
            };
            insert_sym(&mut self.sig.fun_syms, &name, opts);
            proof {
                reveal(orderly);
                if orderly(old(self)@.sig) {
                    law_symbols_are_an_ordered_set(
                        old(self)@.sig.fun_syms,
                        (FunSymM { name: name@, opts }),
                    );
                }
            }
        }
        Ok(
            FunctionDecl {
                name,
                arg_types: args,
                out_type: out,
                private: a.private,
                destructor: a.destructor,
                ac: a.ac,
                ndc: a.ndc,
                ndc_diff: a.ndc_diff,
            },
        )
    }

    #[verifier::spinoff_prover]
    fn declare_function(
        &mut self,
        name: String,
        args: Vec<Option<String>>,
        out: Option<String>,
        a: FctAttrs,
        had: bool,
    ) -> (r: Result<FunctionDecl, ParseError>)
        requires
            old(self).wf(),
        ensures
            final(self).wf(),
            (outcome(r), final(self)@) == declare(
                old(self)@,
                name@,
                args.deep_view(),
                out.deep_view(),
                a,
                had,
            ),
            old(self)@.extends(final(self)@),
    {
        proof {
            reveal(declare);
            reveal(fail_decl);
        }
        let n: usize = args.len();
        let wanted = FunOptions {
            arity: n,
            private: a.private,
            destructor: a.destructor,
            ndc: a.ndc,
            ndc_diff: a.ndc_diff,
        };
        assert(wanted == requested(args.deep_view().len() as int, a));
        if has_text(&self.sig.reserved_builtin_names, &name) {
            match find_opts(&self.sig.fun_syms, &name) {
                Some(b) => {
                    if b != wanted {
                        let m = builtin_conflict_text(&name, &b, &wanted);
                        return Err(self.decl_failure(had, &m));
                    }
                },
                None => {},
            }
        }
        match self.lookup_fun_options(&name) {
            Some(p) => {
                let projection_again = is_projection(&name) && n == 1 && !a.private;
                if p != wanted && !projection_again {
                    let m = arity_conflict_text(&name, &p, &wanted);
                    return Err(self.decl_failure(had, &m));
                }
                if is_projection(&name) {
                    return Ok(
                        FunctionDecl {
                            name,
                            arg_types: args,
                            out_type: out,
                            private: p.private,
                            destructor: p.destructor,
                            ac: false,
                            ndc: p.ndc,
                            ndc_diff: p.ndc_diff,
                        },
                    );
                }
            },
            None => {},
        }
        self.declare_new_function(name, args, out, a, had)
    }

    #[verifier::spinoff_prover]
    fn function_decl(&mut self) -> (r: Result<(FunctionDecl, bool), ParseError>)
        requires
            old(self).wf(),
        ensures
            final(self).wf(),
            (outcome(r), final(self)@) == function_decl(old(self)@),
            old(self)@.extends(final(self)@),
    {
        proof {
            reveal(function_decl);
        }
        self.skip_ws();
        let start = self.save();
        let name = self.ident()?;
        let n: usize = chars_of(&name).len();
        let end = self.ident_end_from(start, n);
        let (args, out) = self.function_type(end)?;
        let (a, had) = self.function_attributes()?;
        let d = self.declare_function(name, args, out, a, had)?;
        Ok((d, had))
    }

    /// The functions that a theory declares.
    #[verifier::spinoff_prover]
    pub fn functions(&mut self) -> (r: Result<Vec<FunctionDecl>, ParseError>)
        requires
            old(self).wf(),
        ensures
            final(self).wf(),
            (outcome(r), final(self)@) == functions(old(self)@),
            old(self)@.extends(final(self)@),
            r is Ok ==> old(self)@.at < final(self)@.at,
    {
        proof {
            reveal(functions);
        }
        if !self.try_kw("functions") {
            self.require_kw("function")?;
        }
        self.require_punct(":")?;
        let mut decls = no_items::<FunctionDecl>();
        loop
            invariant
                self.wf(),
                old(self)@.extends(self@),
                old(self)@.at < self@.at,
                more_functions(self@, decls.deep_view()) == functions(old(self)@),
            decreases self@.rem(),
        {
            let (d, had) = self.function_decl()?;
            put(&mut decls, d);
            if !self.try_punct(",") {
                if had {
                    self.set_item_hangover(ItemTail::Comma);
                } else {
                    self.set_item_hangover(ItemTail::BracketComma);
                }
                return Ok(decls);
            }
        }
    }
}

} // verus!
