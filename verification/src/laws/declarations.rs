//! What declarations declare.

use crate::ast::{EquationM, FactM, FormulaM, FunctionDeclM, MacroM, PredicateM, TermM, VarM};
use crate::basics::dashed_ident;
use crate::definitions::{
    admit_predicates, block_start, convergent, equation, equations, knowing_predicate, macro_args,
    macro_conflict, macro_decl, macro_taken, macro_text, macros, more_equations, more_macros,
    more_predicates, pred_key, predicate, predicate_again, predicate_head, predicates,
};
use crate::error::ErrorM;
use crate::facts::fact;
use crate::formulas::formula;
use crate::functions::{
    arg_types, builtin_enabled, declare, declare_new, fail_decl, function_attr, function_attrs,
    function_decl, function_type, functions, known_opts, more_builtins, more_function_attrs,
    more_functions, no_attrs, switched_on, FctAttrs,
};
use crate::laws::tokens::{
    inside, law_one_word_at_a_place, law_words_stand_in_the_text, lemma_spaced, reads, word,
};
use crate::lists::var_list;
use crate::signature::{builtin_syms, named_in, with_name, with_sym, FunOptions, FunSymM};
use crate::state::{group_steps, SigM, PS};
use crate::terms::{equation_side, term};
use crate::text::alphanumeric;
use crate::vars::{builtin_name, type_elem};
use vstd::prelude::*;

verus! {

broadcast use {group_steps, crate::tokens::group_lexer};

/// An equation is between what stands before `=` and what stands behind it.
pub proof fn law_equations_are_as_written(s: PS)
    ensures
        equation(s).0 matches Ok(q) ==> {
            let l = equation_side(s);
            &&& l.0 == Ok::<TermM, ErrorM>(q.lhs)
            &&& l.1.punct("="@).0
            &&& equation_side(l.1.punct("="@).1).0 == Ok::<TermM, ErrorM>(q.rhs)
        },
{
    reveal(equation);
    reveal(crate::basics::fail_after_term);
}

/// Equations come in their order, with commas between them.
pub proof fn law_equations_in_order(s: PS, acc: Seq<EquationM>, q: EquationM, e: PS)
    requires
        inside(s),
        reads(s, equation(s), q, e),
    ensures
        e.punct(","@).0 ==> more_equations(s, acc) == more_equations(e.punct(","@).1, acc.push(q)),
        !e.punct(","@).0 ==> more_equations(s, acc).0 == Ok::<Seq<EquationM>, ErrorM>(acc.push(q)),
{
}

/// The equations are convergent exactly where `[convergent]` says so.
pub proof fn law_convergent_equations(s: PS)
    ensures
        equations(s).0 matches Ok((c, qs)) ==> {
            let k = s.kw("equations"@).1;
            let b = convergent(k);
            &&& s.kw("equations"@).0
            &&& c <==> k.punct("["@).0
            &&& c ==> k.punct("["@).1.kw("convergent"@).0
            &&& b.1.punct(":"@).0
            &&& more_equations(b.1.punct(":"@).1, Seq::empty()).0 == Ok::<Seq<EquationM>, ErrorM>(
                qs,
            )
        },
{
    reveal(equations);
    reveal(convergent);
}

/// A macro has the name, the arguments and the body that are written, and its
/// arguments are apart.
pub proof fn law_macros_are_as_written(s: PS)
    ensures
        macro_text(s).0 matches Ok(m) ==> {
            let n = s.ident();
            let o = n.1.punct("("@);
            let a = var_list(o.1, ")"@);
            &&& n.0 == Ok::<Seq<char>, ErrorM>(m.name)
            &&& o.0
            &&& a.0 == Ok::<Seq<VarM>, ErrorM>(m.args)
            &&& a.1.punct("="@).0
            &&& term(a.1.punct("="@).1).0 == Ok::<TermM, ErrorM>(m.body)
            &&& !builtin_name(m.name)
            &&& forall|i: int, j: int|
                0 <= i < j < m.args.len() ==> !((#[trigger] m.args[i]).name == (
                #[trigger] m.args[j]).name && m.args[i].idx == m.args[j].idx && m.args[i].sort
                    == m.args[j].sort)
        },
{
    reveal(macro_text);
    reveal(macro_args);
}

/// A macro whose name is free is known from then on, with as many arguments as
/// it has, and the same name is refused for another one.
pub proof fn law_macro_names(s: PS)
    ensures
        macro_decl(s).0 matches Ok(m) ==> {
            let t = macro_decl(s).1;
            &&& macro_text(s).0 == Ok::<MacroM, ErrorM>(m)
            &&& !macro_taken(macro_text(s).1.sig, m.name)
            &&& macro_taken(t.sig, m.name)
            &&& named_in(t.sig.macro_syms, m.name)
            &&& t.sig.macro_syms.last().name == m.name
            &&& m.args.len() <= usize::MAX ==> t.sig.macro_syms.last().opts.arity == m.args.len()
        },
        macro_text(s).0 matches Ok(m) ==> macro_taken(macro_text(s).1.sig, m.name) ==> macro_decl(
            s,
        ).0 is Err,
{
    reveal(macro_decl);
    reveal(macro_conflict);
    if let Ok(m) = macro_decl(s).0 {
        let ms = macro_decl(s).1.sig.macro_syms;
        assert(ms[ms.len() - 1].name == m.name);
    }
}

/// Macros come in their order, with commas between them.
pub proof fn law_macros_in_order(s: PS, acc: Seq<MacroM>, m: MacroM, e: PS)
    requires
        macro_decl(s) == (Ok::<MacroM, ErrorM>(m), e),
        s.ahead(e),
    ensures
        e.punct(","@).0 ==> more_macros(s, acc) == more_macros(e.punct(","@).1, acc.push(m)),
        !e.punct(","@).0 ==> more_macros(s, acc).0 == Ok::<Seq<MacroM>, ErrorM>(acc.push(m)),
{
}

/// A block starts with its word, in the plural or the singular, and a colon.
pub proof fn law_blocks_start(s: PS, plural: Seq<char>, singular: Seq<char>)
    ensures
        block_start(s, plural, singular).0 is Ok <==> (s.kw(plural).0 && s.kw(plural).1.punct(
            ":"@,
        ).0) || (!s.kw(plural).0 && s.kw(singular).0 && s.kw(singular).1.punct(":"@).0),
        s.kw(plural).0 && s.kw(plural).1.punct(":"@).0 ==> block_start(s, plural, singular).1
            == s.kw(plural).1.punct(":"@).1,
        macros(s).0 is Ok ==> macros(s) == more_macros(
            block_start(s, "macros"@, "macro"@).1,
            Seq::empty(),
        ),
{
    reveal(macros);
    reveal(block_start);
}

/// A predicate says of its fact what the formula behind `<=>` says.
pub proof fn law_predicates_are_as_written(s: PS)
    ensures
        predicate(s).0 matches Ok(p) ==> {
            let f = fact(s);
            &&& f.0 == Ok::<FactM, ErrorM>(p.fact)
            &&& f.1.punct("<=>"@).0
            &&& formula(f.1.punct("<=>"@).1).0 == Ok::<FormulaM, ErrorM>(p.formula)
        },
{
    reveal(predicate);
    reveal(predicate_head);
}

/// Predicates come in their order, with commas between them.
pub proof fn law_predicates_in_order(s: PS, acc: Seq<PredicateM>, p: PredicateM, e: PS)
    requires
        inside(s),
        reads(s, predicate(s), p, e),
    ensures
        e.punct(","@).0 ==> more_predicates(s, acc) == more_predicates(
            e.punct(","@).1,
            acc.push(p),
        ),
        !e.punct(","@).0 ==> more_predicates(s, acc).0 == Ok::<Seq<PredicateM>, ErrorM>(
            acc.push(p),
        ),
{
}

/// Predicates are apart by their names, their numbers of arguments and whether
/// they are persistent: one that is known is refused, and one that is not is
/// known from then on.
pub proof fn law_predicates_are_apart(s: PS, ps: Seq<PredicateM>)
    requires
        ps.len() > 0,
    ensures
        (exists|i: int|
            0 <= i < s.st.seen.predicates.len() && (#[trigger] s.st.seen.predicates[i]).name
                == ps[0].fact.name && s.st.seen.predicates[i].arity == ps[0].fact.args.len()
                && s.st.seen.predicates[i].persistent == ps[0].fact.persistent)
            ==> admit_predicates(s, ps, 0).0 is Err,
        admit_predicates(s, ps, 0).0 is Ok ==> admit_predicates(s, seq![ps[0]], 0).0 is Ok
            && admit_predicates(admit_predicates(s, seq![ps[0]], 0).1, seq![ps[0]], 0).0 is Err,
{
    reveal(predicate_again);
    let k = pred_key(ps[0].fact);
    if exists|i: int|
        0 <= i < s.st.seen.predicates.len() && (#[trigger] s.st.seen.predicates[i]).name
            == ps[0].fact.name && s.st.seen.predicates[i].arity == ps[0].fact.args.len()
            && s.st.seen.predicates[i].persistent == ps[0].fact.persistent {
        let i = choose|i: int|
            0 <= i < s.st.seen.predicates.len() && (#[trigger] s.st.seen.predicates[i]).name
                == ps[0].fact.name && s.st.seen.predicates[i].arity == ps[0].fact.args.len()
                && s.st.seen.predicates[i].persistent == ps[0].fact.persistent;
        assert(s.st.seen.predicates[i] == k);
    }
    if admit_predicates(s, ps, 0).0 is Ok {
        let t = knowing_predicate(s, k);
        assert(t.st.seen.predicates.last() == k);
        assert(admit_predicates(t, seq![ps[0]], 1) == (Ok::<(), ErrorM>(()), t));
        assert(admit_predicates(s, seq![ps[0]], 0).1 == t);
    }
}

spec fn function_attr_words() -> Seq<Seq<char>> {
    seq![
        "private"@,
        "destructor"@,
        "constructor"@,
        "AC"@,
    ]
}

/// No two of these words are read at one place.
proof fn lemma_one_function_attr_word(s: PS)
    requires
        inside(s),
    ensures
        forall|a: int, b: int|
            0 <= a < 4 && 0 <= b < 4 && a != b && (#[trigger] s.kw(function_attr_words()[a])).0 ==> !(
            #[trigger] s.kw(function_attr_words()[b])).0,
        function_attr_words()[0] == "private"@,
        function_attr_words()[1] == "destructor"@,
        function_attr_words()[2] == "constructor"@,
        function_attr_words()[3] == "AC"@,
{
    reveal(alphanumeric);
    reveal_strlit("private");
    reveal_strlit("destructor");
    reveal_strlit("constructor");
    reveal_strlit("AC");
    let w = function_attr_words();
    assert(w[0] == "private"@ && word(w[0]) && w[0].len() == 7);
    assert(w[1] == "destructor"@ && word(w[1]) && w[1].len() == 10);
    assert(w[2] == "constructor"@ && word(w[2]) && w[2].len() == 11);
    assert(w[3] == "AC"@ && word(w[3]) && w[3].len() == 2);
    assert forall|a: int, b: int|
        0 <= a < 4 && 0 <= b < 4 && a != b && (#[trigger] s.kw(w[a])).0 implies !(
    #[trigger] s.kw(w[b])).0 by {
        if s.kw(w[b]).0 {
            law_one_word_at_a_place(s, w[a], w[b]);
        }
    }
}

/// What the words for attributes of functions mean. Each leaves the others as
/// they are.
pub proof fn law_attributes_of_functions(s: PS, a: FctAttrs)
    requires
        inside(s),
    ensures
        s.kw("private"@).0 ==> function_attr(s, a) == (
            Some(
                FctAttrs {
                    private: true,
                    destructor: a.destructor,
                    ac: a.ac,
                    ndc: a.ndc,
                    ndc_diff: a.ndc_diff,
                },
            ),
            s.kw("private"@).1,
        ),
        s.kw("destructor"@).0 ==> function_attr(s, a) == (
            Some(
                FctAttrs {
                    private: a.private,
                    destructor: true,
                    ac: a.ac,
                    ndc: a.ndc,
                    ndc_diff: a.ndc_diff,
                },
            ),
            s.kw("destructor"@).1,
        ),
        s.kw("constructor"@).0 ==> function_attr(s, a) == (Some(a), s.kw("constructor"@).1),
        s.kw("AC"@).0 ==> function_attr(s, a) == (
            Some(
                FctAttrs {
                    private: a.private,
                    destructor: a.destructor,
                    ac: true,
                    ndc: a.ndc,
                    ndc_diff: a.ndc_diff,
                },
            ),
            s.kw("AC"@).1,
        ),
        s.kw("NDC-diff"@).0 ==> function_attr(s, a) == (
            Some(
                FctAttrs {
                    private: a.private,
                    destructor: a.destructor,
                    ac: a.ac,
                    ndc: a.ndc,
                    ndc_diff: true,
                },
            ),
            s.kw("NDC-diff"@).1,
        ),
        s.kw("NDC"@).0 ==> function_attr(s, a) == (
            Some(
                FctAttrs {
                    private: a.private,
                    destructor: a.destructor,
                    ac: a.ac,
                    ndc: true,
                    ndc_diff: a.ndc_diff,
                },
            ),
            s.kw("NDC"@).1,
        ),
{
    reveal(function_attr);
    reveal_strlit("NDC");
    reveal_strlit("NDC-diff");
    lemma_one_function_attr_word(s);
    lemma_spaced(s, "private"@);
    lemma_spaced(s, "destructor"@);
    lemma_spaced(s, "constructor"@);
    lemma_spaced(s, "AC"@);
    lemma_spaced(s, "NDC"@);
    lemma_spaced(s, "NDC-diff"@);
    reveal(alphanumeric);
    reveal_strlit("private");
    reveal_strlit("destructor");
    reveal_strlit("constructor");
    reveal_strlit("AC");
    let b = crate::tokens::ws_end(s.src, s.at);
    law_words_stand_in_the_text(s, "NDC"@);
    law_words_stand_in_the_text(s, "NDC-diff"@);
    law_words_stand_in_the_text(s, "private"@);
    law_words_stand_in_the_text(s, "destructor"@);
    law_words_stand_in_the_text(s, "constructor"@);
    law_words_stand_in_the_text(s, "AC"@);
    if s.kw("NDC"@).0 {
        assert(s.src[b] == 'N');
    }
    if s.kw("NDC-diff"@).0 {
        assert(s.src[b] == 'N');
        assert(s.src[b + 3] == '-');
        assert(!crate::text::white_space('-')) by {
            reveal(crate::text::white_space);
        }
        assert(crate::tokens::ws_end(s.src, b + 3) == b + 3);
    }
    if s.kw("private"@).0 {
        assert(s.src[b] == 'p');
    }
    if s.kw("destructor"@).0 {
        assert(s.src[b] == 'd');
    }
    if s.kw("constructor"@).0 {
        assert(s.src[b] == 'c');
    }
    if s.kw("AC"@).0 {
        assert(s.src[b] == 'A');
    }
}

/// Attributes add up, with commas between them; a function without brackets
/// behind it has none of them.
pub proof fn law_function_attributes_add_up(s: PS, a: FctAttrs, b: FctAttrs, e: PS)
    requires
        inside(s),
    ensures
        function_attr(s, a) == (Some(b), e) && s.past(e) && e.punct(","@).0 ==> more_function_attrs(
            s,
            a,
        ) == more_function_attrs(e.punct(","@).1, b),
        function_attr(s, a) == (Some(b), e) && s.past(e) && !e.punct(","@).0 && e.punct("]"@).0
            ==> more_function_attrs(s, a) == (Ok::<FctAttrs, ErrorM>(b), e.punct("]"@).1),
        !s.punct("["@).0 ==> (function_attrs(s).0 matches Ok((c, had)) && !had && !c.private
            && !c.destructor && !c.ac && !c.ndc && !c.ndc_diff),
        s.punct("["@).0 ==> (function_attrs(s).0 matches Ok((c, had)) ==> had
            && more_function_attrs(s.punct("["@).1, no_attrs()).0 == Ok::<FctAttrs, ErrorM>(c)),
{
    reveal(function_attrs);
    if s.past(e) {
        lemma_spaced(e, ","@);
        lemma_spaced(e, "]"@);
    }
}

/// A function that is declared by `/k` has `k` arguments without types; one
/// that is declared by types has an argument for each, and the result's type
/// behind the colon.
pub proof fn law_types_of_functions(s: PS, end: usize)
    ensures
        function_type(s, end).0 matches Ok((args, out)) ==> {
            let o = s.punct("/"@).1.punct("("@);
            let t = arg_types(o.1);
            &&& s.punct("/"@).0 ==> out is None && s.punct("/"@).1.natural().0 is Some && args.len()
                == s.punct("/"@).1.natural().0->0 as usize && forall|i: int|
                0 <= i < args.len() ==> #[trigger] args[i] is None
            &&& !s.punct("/"@).0 ==> o.0 && t.0 == Ok::<Seq<Option<Seq<char>>>, ErrorM>(args)
                && t.1.punct(":"@).0 && (type_elem(t.1.punct(":"@).1).0 matches Some((x, _)) && x
                == out)
        },
{
    reveal(function_type);
}

/// What a function is declared as is what is known of it from then on: its
/// number of arguments, and its attributes. An associative function has two
/// arguments.
pub proof fn law_declared_functions_are_known(
    s: PS,
    name: Seq<char>,
    args: Seq<Option<Seq<char>>>,
    out: Option<Seq<char>>,
    a: FctAttrs,
    had: bool,
)
    requires
        args.len() <= usize::MAX,
    ensures
        declare_new(s, name, args, out, a, had).0 matches Ok(d) ==> {
            let t = declare_new(s, name, args, out, a, had).1;
            let k = FunSymM {
                name,
                opts: FunOptions {
                    arity: args.len() as usize,
                    private: a.private,
                    destructor: a.destructor,
                    ndc: a.ndc,
                    ndc_diff: a.ndc_diff,
                },
            };
            &&& d.name == name && d.arg_types == args && d.out_type == out
            &&& d.private == a.private && d.destructor == a.destructor && d.ac == a.ac
            &&& d.ndc == a.ndc && d.ndc_diff == a.ndc_diff
            &&& a.ac ==> args.len() == 2 && t.sig.ac_fun_syms == with_name(s.sig.ac_fun_syms, name)
                && t.sig.fun_syms == s.sig.fun_syms
            &&& !a.ac ==> t.sig.fun_syms == with_sym(s.sig.fun_syms, k) && t.sig.ac_fun_syms
                == s.sig.ac_fun_syms
        },
        declare_new(s, name, args, out, a, had).0 is Err <==> a.ac && args.len() != 2,
{
    reveal(declare_new);
    reveal(fail_decl);
}

/// A function that is known with other options is refused, except that the
/// projections of pairs may be declared again.
pub proof fn law_conflicting_functions(
    s: PS,
    name: Seq<char>,
    args: Seq<Option<Seq<char>>>,
    out: Option<Seq<char>>,
    a: FctAttrs,
    had: bool,
)
    requires
        args.len() <= usize::MAX,
        name != "fst"@,
        name != "snd"@,
    ensures
        ({
            let r = FunOptions {
                arity: args.len() as usize,
                private: a.private,
                destructor: a.destructor,
                ndc: a.ndc,
                ndc_diff: a.ndc_diff,
            };
            let d = declare(s, name, args, out, a, had);
            &&& known_opts(s.sig, name) is Some && known_opts(s.sig, name)->0 != r ==> d.0 is Err
            &&& known_opts(s.sig, name) is None ==> d == declare_new(s, name, args, out, a, had)
            &&& known_opts(s.sig, name) == Some(r) ==> d == declare_new(
                s,
                name,
                args,
                out,
                a,
                had,
            )
        }),
{
    reveal(declare);
    reveal(fail_decl);
}

/// A declaration of a function: name, type, attributes, in this order.
pub proof fn law_function_declarations(s: PS)
    ensures
        function_decl(s).0 matches Ok((d, had)) ==> {
            let n = s.ws().ident();
            let y = function_type(
                n.1,
                crate::basics::word_offset(s.ws().src, s.ws().at, n.0->Ok_0.len() as int),
            );
            let a = function_attrs(y.1);
            &&& n.0 is Ok && y.0 is Ok && a.0 is Ok
            &&& ({
                let (args, out) = y.0->Ok_0;
                let (attrs, h) = a.0->Ok_0;
                &&& h == had
                &&& declare(a.1, n.0->Ok_0, args, out, attrs, h) == (
                    Ok::<FunctionDeclM, ErrorM>(d),
                    function_decl(s).1,
                )
            })
        },
{
    reveal(function_decl);
}

/// Functions come in their order, with commas between them.
pub proof fn law_functions_in_order(
    s: PS,
    acc: Seq<FunctionDeclM>,
    d: FunctionDeclM,
    had: bool,
    e: PS,
)
    requires
        function_decl(s) == (Ok::<(FunctionDeclM, bool), ErrorM>((d, had)), e),
        s.ahead(e),
    ensures
        e.punct(","@).0 ==> more_functions(s, acc) == more_functions(e.punct(","@).1, acc.push(d)),
        !e.punct(","@).0 ==> more_functions(s, acc).0 == Ok::<Seq<FunctionDeclM>, ErrorM>(
            acc.push(d),
        ),
        functions(s).0 is Ok ==> s.kw("functions"@).0 || s.kw("function"@).0,
{
    reveal(functions);
}

/// What a builtin turns on: each its own operators, and pairings those of
/// Diffie-Hellman too. Nothing is turned off.
pub proof fn law_builtins_turn_on(sig: SigM, name: Seq<char>)
    ensures
        ({
            let t = switched_on(sig, name);
            &&& t.enable_dh <==> sig.enable_dh || name == "diffie-hellman"@ || name
                == "bilinear-pairing"@
            &&& t.enable_bp <==> sig.enable_bp || name == "bilinear-pairing"@
            &&& t.enable_xor <==> sig.enable_xor || name == "xor"@
            &&& t.enable_mset <==> sig.enable_mset || name == "multiset"@
            &&& t.enable_nat <==> sig.enable_nat || name == "natural-numbers"@
            &&& t.enable_diff == sig.enable_diff
            &&& t.fun_syms == sig.fun_syms && t.ac_fun_syms == sig.ac_fun_syms && t.macro_syms
                == sig.macro_syms
        }),
{
    reveal(switched_on);
    reveal_strlit("diffie-hellman");
    reveal_strlit("bilinear-pairing");
    reveal_strlit("xor");
    reveal_strlit("multiset");
    reveal_strlit("natural-numbers");
    assert("diffie-hellman"@.len() == 14 && "bilinear-pairing"@.len() == 16 && "xor"@.len() == 3
        && "multiset"@.len() == 8 && "natural-numbers"@.len() == 15);
}

/// The builtins of a theory come in their order, with commas between them, and
/// each is turned on before the next is read.
pub proof fn law_builtins_in_order(s: PS, acc: Seq<Seq<char>>, name: Seq<char>, e: PS, t: PS)
    requires
        dashed_ident(s) == (Ok::<Seq<char>, ErrorM>(name), e),
        builtin_enabled(e, name) == (Ok::<(), ErrorM>(()), t),
    ensures
        t.punct(","@).0 && s.ahead(t.punct(","@).1) && s.at < t.punct(","@).1.at ==> more_builtins(
            s,
            acc,
        ) == more_builtins(t.punct(","@).1, acc.push(name)),
        !t.punct(","@).0 ==> more_builtins(s, acc).0 == Ok::<Seq<Seq<char>>, ErrorM>(
            acc.push(name),
        ),
{
}

/// A builtin that is no builtin changes nothing, and every other one that is
/// read turns on what it stands for and makes its functions known.
pub proof fn law_builtins_are_enabled(s: PS, name: Seq<char>)
    ensures
        builtin_syms(name) is None ==> builtin_enabled(s, name) == (Ok::<(), ErrorM>(()), s),
        builtin_syms(name) is Some && builtin_enabled(s, name).0 is Ok ==> {
            let t = builtin_enabled(s, name).1;
            &&& t.sig.enable_dh == switched_on(s.sig, name).enable_dh
            &&& t.sig.enable_bp == switched_on(s.sig, name).enable_bp
            &&& t.sig.enable_xor == switched_on(s.sig, name).enable_xor
            &&& t.sig.enable_mset == switched_on(s.sig, name).enable_mset
            &&& t.sig.enable_nat == switched_on(s.sig, name).enable_nat
            &&& t.sig.fun_syms == crate::functions::all_admitted(
                s.sig.fun_syms,
                builtin_syms(name)->0,
                builtin_syms(name)->0.len() as int,
            )
            &&& t.at == s.at && t.src == s.src
        },
        builtin_enabled(s, name).0 is Err ==> !s.place.is_diff,
{
    reveal(builtin_enabled);
    law_builtins_turn_on(s.sig, name);
}

/// The functions of the builtins take the numbers of arguments that their
/// names stand for, whichever builtin brings them.
pub proof fn law_arities_of_builtin_functions(name: Seq<char>, i: int)
    requires
        builtin_syms(name) is Some,
        0 <= i < builtin_syms(name)->0.len(),
    ensures
        ({
            let k = builtin_syms(name)->0[i];
            let n = k.opts.arity;
            &&& !k.opts.ndc && !k.opts.ndc_diff
            &&& k.opts.private <==> k.name == "rep"@
            &&& k.name == "h"@ || k.name == "pk"@ || k.name == "fst"@ || k.name == "snd"@ || k.name
                == "getMessage"@ || k.name == "report"@ || k.name == "get_rep"@ ==> n == 1
            &&& k.name == "senc"@ || k.name == "sdec"@ || k.name == "aenc"@ || k.name == "adec"@
                || k.name == "sign"@ || k.name == "pair"@ || k.name == "revealSign"@ || k.name
                == "rep"@ || k.name == "check_rep"@ ==> n == 2
            &&& k.name == "verify"@ || k.name == "revealVerify"@ ==> n == 3
            &&& k.name == "true"@ ==> n == 0
        }),
{
    lemma_builtin_names();
}

proof fn lemma_builtin_names()
    ensures
        forall|a: int, b: int|
            0 <= a < b < 19 ==> #[trigger] function_names()[a] != #[trigger] function_names()[b],
        function_names()[0] == "h"@,
        function_names()[1] == "pk"@,
        function_names()[2] == "fst"@,
        function_names()[3] == "snd"@,
        function_names()[4] == "getMessage"@,
        function_names()[5] == "report"@,
        function_names()[6] == "get_rep"@,
        function_names()[7] == "senc"@,
        function_names()[8] == "sdec"@,
        function_names()[9] == "aenc"@,
        function_names()[10] == "adec"@,
        function_names()[11] == "sign"@,
        function_names()[12] == "pair"@,
        function_names()[13] == "revealSign"@,
        function_names()[14] == "rep"@,
        function_names()[15] == "check_rep"@,
        function_names()[16] == "verify"@,
        function_names()[17] == "revealVerify"@,
        function_names()[18] == "true"@,
{
    reveal_strlit("h");
    reveal_strlit("pk");
    reveal_strlit("fst");
    reveal_strlit("snd");
    reveal_strlit("getMessage");
    reveal_strlit("report");
    reveal_strlit("get_rep");
    reveal_strlit("senc");
    reveal_strlit("sdec");
    reveal_strlit("aenc");
    reveal_strlit("adec");
    reveal_strlit("sign");
    reveal_strlit("pair");
    reveal_strlit("revealSign");
    reveal_strlit("rep");
    reveal_strlit("check_rep");
    reveal_strlit("verify");
    reveal_strlit("revealVerify");
    reveal_strlit("true");
    let w = function_names();
    assert(w[0] == "h"@ && w[0].len() == 1);
    assert(w[1] == "pk"@ && w[1].len() == 2);
    assert(w[2] == "fst"@ && w[2].len() == 3);
    assert(w[3] == "snd"@ && w[3].len() == 3);
    assert(w[4] == "getMessage"@ && w[4].len() == 10);
    assert(w[5] == "report"@ && w[5].len() == 6);
    assert(w[6] == "get_rep"@ && w[6].len() == 7);
    assert(w[7] == "senc"@ && w[7].len() == 4);
    assert(w[8] == "sdec"@ && w[8].len() == 4);
    assert(w[9] == "aenc"@ && w[9].len() == 4);
    assert(w[10] == "adec"@ && w[10].len() == 4);
    assert(w[11] == "sign"@ && w[11].len() == 4);
    assert(w[12] == "pair"@ && w[12].len() == 4);
    assert(w[13] == "revealSign"@ && w[13].len() == 10);
    assert(w[14] == "rep"@ && w[14].len() == 3);
    assert(w[15] == "check_rep"@ && w[15].len() == 9);
    assert(w[16] == "verify"@ && w[16].len() == 6);
    assert(w[17] == "revealVerify"@ && w[17].len() == 12);
    assert(w[18] == "true"@ && w[18].len() == 4);
    assert(w[2][0] == 'f' && w[3][0] == 's');
    assert(w[2][0] == 'f' && w[14][0] == 'r');
    assert(w[3][0] == 's' && w[14][0] == 'r');
    assert(w[4][0] == 'g' && w[13][0] == 'r');
    assert(w[5][0] == 'r' && w[16][0] == 'v');
    assert(w[7][1] == 'e' && w[8][1] == 'd');
    assert(w[7][0] == 's' && w[9][0] == 'a');
    assert(w[7][0] == 's' && w[10][0] == 'a');
    assert(w[7][1] == 'e' && w[11][1] == 'i');
    assert(w[7][0] == 's' && w[12][0] == 'p');
    assert(w[7][0] == 's' && w[18][0] == 't');
    assert(w[8][0] == 's' && w[9][0] == 'a');
    assert(w[8][0] == 's' && w[10][0] == 'a');
    assert(w[8][1] == 'd' && w[11][1] == 'i');
    assert(w[8][0] == 's' && w[12][0] == 'p');
    assert(w[8][0] == 's' && w[18][0] == 't');
    assert(w[9][1] == 'e' && w[10][1] == 'd');
    assert(w[9][0] == 'a' && w[11][0] == 's');
    assert(w[9][0] == 'a' && w[12][0] == 'p');
    assert(w[9][0] == 'a' && w[18][0] == 't');
    assert(w[10][0] == 'a' && w[11][0] == 's');
    assert(w[10][0] == 'a' && w[12][0] == 'p');
    assert(w[10][0] == 'a' && w[18][0] == 't');
    assert(w[11][0] == 's' && w[12][0] == 'p');
    assert(w[11][0] == 's' && w[18][0] == 't');
    assert(w[12][0] == 'p' && w[18][0] == 't');
}

spec fn function_names() -> Seq<Seq<char>> {
    seq![
        "h"@,
        "pk"@,
        "fst"@,
        "snd"@,
        "getMessage"@,
        "report"@,
        "get_rep"@,
        "senc"@,
        "sdec"@,
        "aenc"@,
        "adec"@,
        "sign"@,
        "pair"@,
        "revealSign"@,
        "rep"@,
        "check_rep"@,
        "verify"@,
        "revealVerify"@,
        "true"@,
    ]
}

/// Which functions each builtin brings.
pub proof fn law_functions_of_builtins(name: Seq<char>, f: Seq<char>)
    ensures
        name == "hashing"@ ==> (brings(name, f) <==> f == "h"@),
        name == "symmetric-encryption"@ || name == "dest-symmetric-encryption"@ ==> (brings(name, f)
            <==> f == "senc"@ || f == "sdec"@),
        name == "asymmetric-encryption"@ || name == "dest-asymmetric-encryption"@ ==> (brings(
            name,
            f,
        ) <==> f == "aenc"@ || f == "adec"@ || f == "pk"@),
        name == "signing"@ || name == "dest-signing"@ ==> (brings(name, f) <==> f == "sign"@ || f
            == "verify"@ || f == "true"@ || f == "pk"@),
        name == "revealing-signing"@ ==> (brings(name, f) <==> f == "revealSign"@ || f
            == "revealVerify"@ || f == "getMessage"@ || f == "true"@ || f == "pk"@),
        name == "dest-pairing"@ ==> (brings(name, f) <==> f == "fst"@ || f == "snd"@ || f
            == "pair"@),
        name == "locations-report"@ ==> (brings(name, f) <==> f == "rep"@ || f == "check_rep"@ || f
            == "get_rep"@ || f == "report"@),
        name == "diffie-hellman"@ || name == "bilinear-pairing"@ || name == "multiset"@ || name
            == "xor"@ || name == "natural-numbers"@ ==> builtin_syms(name) is Some && !brings(
            name,
            f,
        ),
{
    lemma_builtins_apart();
    if let Some(v) = builtin_syms(name) {
        if v.len() > 0 {
            assert(v[0].name == v[0].name);
        }
        if v.len() > 1 {
            assert(v[1].name == v[1].name);
        }
        if v.len() > 2 {
            assert(v[2].name == v[2].name);
        }
        if v.len() > 3 {
            assert(v[3].name == v[3].name);
        }
        if v.len() > 4 {
            assert(v[4].name == v[4].name);
        }
        assert(v.len() <= 5);
    }
}

/// Whether the builtin brings a function of that name.
pub open spec fn brings(builtin: Seq<char>, f: Seq<char>) -> bool {
    builtin_syms(builtin) matches Some(v) && named_in(v, f)
}

/// A builtin whose name starts with `dest-` brings the functions of the builtin
/// without that start, with the same numbers of arguments; those that take
/// terms apart are destructors there, and only there.
pub proof fn law_builtins_with_destructors(name: Seq<char>, i: int)
    requires
        name == "symmetric-encryption"@ || name == "asymmetric-encryption"@ || name == "signing"@,
        builtin_syms(name) is Some,
        0 <= i < builtin_syms(name)->0.len(),
    ensures
        builtin_syms("dest-"@ + name) is Some,
        ({
            let p = builtin_syms(name)->0;
            let q = builtin_syms("dest-"@ + name)->0;
            &&& q.len() == p.len()
            &&& q[i].name == p[i].name && q[i].opts.arity == p[i].opts.arity
            &&& !p[i].opts.destructor
            &&& q[i].opts.destructor <==> p[i].name == "sdec"@ || p[i].name == "adec"@ || p[i].name
                == "verify"@
        }),
{
    lemma_builtins_apart();
    lemma_builtin_names();
    reveal_strlit("dest-");
    reveal_strlit("symmetric-encryption");
    reveal_strlit("asymmetric-encryption");
    reveal_strlit("signing");
    reveal_strlit("dest-symmetric-encryption");
    reveal_strlit("dest-asymmetric-encryption");
    reveal_strlit("dest-signing");
    assert("dest-"@ + "symmetric-encryption"@ =~= "dest-symmetric-encryption"@);
    assert("dest-"@ + "asymmetric-encryption"@ =~= "dest-asymmetric-encryption"@);
    assert("dest-"@ + "signing"@ =~= "dest-signing"@);
}

proof fn lemma_builtins_apart()
    ensures
        forall|a: int, b: int|
            0 <= a < b < 15 ==> #[trigger] names_of_builtins()[a]
                != #[trigger] names_of_builtins()[b],
        names_of_builtins()[0] == "locations-report"@,
        names_of_builtins()[1] == "diffie-hellman"@,
        names_of_builtins()[2] == "bilinear-pairing"@,
        names_of_builtins()[3] == "multiset"@,
        names_of_builtins()[4] == "xor"@,
        names_of_builtins()[5] == "symmetric-encryption"@,
        names_of_builtins()[6] == "asymmetric-encryption"@,
        names_of_builtins()[7] == "signing"@,
        names_of_builtins()[8] == "dest-pairing"@,
        names_of_builtins()[9] == "dest-symmetric-encryption"@,
        names_of_builtins()[10] == "dest-asymmetric-encryption"@,
        names_of_builtins()[11] == "dest-signing"@,
        names_of_builtins()[12] == "revealing-signing"@,
        names_of_builtins()[13] == "hashing"@,
        names_of_builtins()[14] == "natural-numbers"@,
{
    reveal_strlit("locations-report");
    reveal_strlit("diffie-hellman");
    reveal_strlit("bilinear-pairing");
    reveal_strlit("multiset");
    reveal_strlit("xor");
    reveal_strlit("symmetric-encryption");
    reveal_strlit("asymmetric-encryption");
    reveal_strlit("signing");
    reveal_strlit("dest-pairing");
    reveal_strlit("dest-symmetric-encryption");
    reveal_strlit("dest-asymmetric-encryption");
    reveal_strlit("dest-signing");
    reveal_strlit("revealing-signing");
    reveal_strlit("hashing");
    reveal_strlit("natural-numbers");
    let w = names_of_builtins();
    assert(w[0] == "locations-report"@ && w[0].len() == 16);
    assert(w[1] == "diffie-hellman"@ && w[1].len() == 14);
    assert(w[2] == "bilinear-pairing"@ && w[2].len() == 16);
    assert(w[3] == "multiset"@ && w[3].len() == 8);
    assert(w[4] == "xor"@ && w[4].len() == 3);
    assert(w[5] == "symmetric-encryption"@ && w[5].len() == 20);
    assert(w[6] == "asymmetric-encryption"@ && w[6].len() == 21);
    assert(w[7] == "signing"@ && w[7].len() == 7);
    assert(w[8] == "dest-pairing"@ && w[8].len() == 12);
    assert(w[9] == "dest-symmetric-encryption"@ && w[9].len() == 25);
    assert(w[10] == "dest-asymmetric-encryption"@ && w[10].len() == 26);
    assert(w[11] == "dest-signing"@ && w[11].len() == 12);
    assert(w[12] == "revealing-signing"@ && w[12].len() == 17);
    assert(w[13] == "hashing"@ && w[13].len() == 7);
    assert(w[14] == "natural-numbers"@ && w[14].len() == 15);
    assert(w[0][0] == 'l' && w[2][0] == 'b');
    assert(w[7][0] == 's' && w[13][0] == 'h');
    assert(w[8][5] == 'p' && w[11][5] == 's');
}

spec fn names_of_builtins() -> Seq<Seq<char>> {
    seq![
        "locations-report"@,
        "diffie-hellman"@,
        "bilinear-pairing"@,
        "multiset"@,
        "xor"@,
        "symmetric-encryption"@,
        "asymmetric-encryption"@,
        "signing"@,
        "dest-pairing"@,
        "dest-symmetric-encryption"@,
        "dest-asymmetric-encryption"@,
        "dest-signing"@,
        "revealing-signing"@,
        "hashing"@,
        "natural-numbers"@,
    ]
}

} // verus!
