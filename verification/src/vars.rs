//! Variables, and how names resolve.

use crate::ast::{LSort, TermM, VarM, VarSpec};
use crate::basics::{labels3, word_offset};
use crate::error::{outcome, ErrorM, ParseError};
use crate::lexer::{position_of, Pos};
use crate::model::put;
use crate::signature::{
    constant_in, find_opts, first_opts, has_constant, least_opts, plain_opts, smallest_opts,
    theory_noeq_syms, theory_syms, FunOptions,
};
use crate::state::{group_steps, Hangs, Parser, SigM, SigState, Step, PS};
use crate::text::{alphabetic, alphanumeric, ascii_digit, chars_of, has_text, is_digit, same};
use vstd::prelude::*;

verus! {

broadcast use {group_steps, crate::tokens::group_lexer, crate::ast::group_models};

/// What the head of an application stands for.
#[derive(Debug, Clone, Copy, PartialEq, Eq, Structural)]
pub enum ArityRes {
    /// A free symbol or a macro.
    NoEq { opts: FunOptions },
    /// An associative-commutative symbol.
    Ac,
}

/// The free symbols of the algebraic theories that `sig` switches on.
pub open spec fn algebra_syms(sig: SigM) -> Seq<crate::signature::FunSymM> {
    theory_syms(sig.enable_dh, sig.enable_bp, sig.enable_xor, sig.enable_nat)
}

/// What `op` stands for: the smallest of the free symbols of that name, else
/// an associative-commutative symbol, else a macro, else the pairing map.
#[verifier::opaque]
pub open spec fn arity_of(sig: SigM, op: Seq<char>) -> Option<ArityRes> {
    let own = least_opts(sig.fun_syms, op, sig.fun_syms.len() as int, None);
    let all = algebra_syms(sig);
    match least_opts(all, op, all.len() as int, own) {
        Some(opts) => Some(ArityRes::NoEq { opts }),
        None => if sig.ac_fun_syms.contains(op) {
            Some(ArityRes::Ac)
        } else {
            match first_opts(sig.macro_syms, op, 0) {
                Some(opts) => Some(ArityRes::NoEq { opts }),
                None => if op == "em"@ {
                    Some(ArityRes::NoEq { opts: plain_opts(2) })
                } else {
                    None
                },
            }
        },
    }
}

/// Whether the application is written with an infix operator.
pub open spec fn is_exp(res: ArityRes, id: Seq<char>) -> bool {
    id == "exp"@ && res == (ArityRes::NoEq { opts: plain_opts(2) })
}

/// Whether `name` is a constant.
#[verifier::opaque]
pub open spec fn nullary(sig: SigM, name: Seq<char>) -> bool {
    constant_in(sig.fun_syms, name) || constant_in(sig.macro_syms, name) || constant_in(
        algebra_syms(sig),
        name,
    )
}

/// The names of builtin symbols that no macro may have.
pub open spec fn builtin_name(w: Seq<char>) -> bool {
    w == "mun"@ || w == "one"@ || w == "exp"@ || w == "mult"@ || w == "inv"@ || w == "pmult"@ || w
        == "em"@ || w == "zero"@ || w == "xor"@
}

pub fn is_builtin_name(w: &str) -> (r: bool)
    ensures
        r == builtin_name(w@),
{
    same(w, "mun") || same(w, "one") || same(w, "exp") || same(w, "mult") || same(w, "inv")
        || same(w, "pmult") || same(w, "em") || same(w, "zero") || same(w, "xor")
}

/// What an index behind an identifier is, and the state behind it.
#[verifier::opaque]
pub open spec fn dot_index(s: PS) -> (u64, PS) {
    let s0 = PS { h: Hangs { dot_index: false, ..s.h }, ..s };
    if s.peek() == Some('.') && s.peek_at(1) is Some && ascii_digit(s.peek_at(1)->0) {
        match s0.bump().natural() {
            (Some(n), s1) => (n, PS { h: Hangs { dot_index: true, ..s1.h }, ..s1 }),
            (None, _) => (0, s0),
        }
    } else {
        (0, s0)
    }
}

/// A type: `None` in the first place where there is none; inside, `None` for
/// `Any`, and the offset at which the name of a type ended.
#[verifier::opaque]
pub open spec fn type_elem(s: PS) -> (Option<(Option<Seq<char>>, Option<usize>)>, PS) {
    let w = s.ws();
    match w.name() {
        (Some(id), s1) => if id == "Any"@ {
            (Some((None, None)), s1)
        } else {
            (Some((Some(id), Some(word_offset(w.src, w.at, id.len() as int)))), s1)
        },
        (None, s1) => (None, s1),
    }
}

/// The sort behind a colon, and the state behind it.
#[verifier::opaque]
pub open spec fn sort_word(s: PS) -> (Option<LSort>, PS) {
    let (a, s1) = s.kw("msg"@);
    let (b, s2) = s.kw("pub"@);
    let (c, s3) = s.kw("fresh"@);
    let (d, s4) = s.kw("node"@);
    let (e, s5) = s.kw("nat"@);
    if a {
        (Some(LSort::Msg), s1)
    } else if b {
        (Some(LSort::Pub), s2)
    } else if c {
        (Some(LSort::Fresh), s3)
    } else if d {
        (Some(LSort::Node), s4)
    } else if e {
        (Some(LSort::Nat), s5)
    } else {
        (None, s)
    }
}

/// The variable `v` with the sort or the type that follows it.
#[verifier::opaque]
pub open spec fn suffixed(s: PS, v: VarM) -> Step<VarM> {
    let s0 = PS { h: Hangs { sort_suffix: false, ..s.h }, ..s };
    let (colon, s1) = s0.punct(":"@);
    if !colon {
        if s.mode.sapic && v.sort == LSort::Node {
            (Ok(VarM { typ: Some("node"@), ..v }), s1)
        } else {
            (Ok(v), s1)
        }
    } else if s.mode.sapic {
        match type_elem(s1) {
            (Some((t, _)), s2) => (Ok(VarM { typ: t, ..v }), s2),
            (None, _) => (Ok(v), s0),
        }
    } else {
        match sort_word(s1) {
            (Some(sort), s2) => if sort == LSort::Nat && !s.sig.enable_nat {
                (
                    Err(
                        s2.err_found(
                            "nat-sorted variables requires the natural-numbers builtin"@,
                        ),
                    ),
                    s2,
                )
            } else {
                (
                    Ok(VarM { sort, ..v }),
                    PS { h: Hangs { sort_suffix: true, ..s2.h }, ..s2 },
                )
            },
            (None, _) => match s1.name() {
                (Some(t), s2) => (Ok(VarM { typ: Some(t), ..v }), s2),
                (None, _) => (Ok(v), s0),
            },
        }
    }
}

/// The variable of a sort whose name comes next, or none at `start`.
pub open spec fn var_named(start: PS, s: PS, sort: LSort) -> Step<Option<VarM>> {
    match s.name() {
        (Some(id), s1) => {
            let s2 = PS {
                h: Hangs {
                    last_ident_end: Some(word_offset(s.src, s.at, id.len() as int)),
                    ..s1.h
                },
                ..s1
            };
            let (idx, s3) = dot_index(s2);
            (Ok(Some(VarM { name: id, idx, sort, typ: None })), s3)
        },
        (None, _) => (Ok(None), start),
    }
}

/// A variable without a suffix, if one comes next.
#[verifier::opaque]
pub open spec fn var_head(s: PS) -> Step<Option<VarM>> {
    let w = s.ws();
    match w.peek() {
        Some(c) => if c == '~' {
            var_named(w, w.bump(), LSort::Fresh)
        } else if c == '$' {
            var_named(w, w.bump(), LSort::Pub)
        } else if c == '#' {
            var_named(w, w.bump(), LSort::Node)
        } else if c == '%' {
            match w.peek_at(1) {
                Some(d) => if d == '\'' {
                    (Ok(None), w)
                } else if alphanumeric(d) {
                    if s.sig.enable_nat {
                        var_named(w, w.bump(), LSort::Nat)
                    } else {
                        (
                            Err(
                                w.bump().err(
                                    "nat-sorted variables requires the natural-numbers builtin"@,
                                ),
                            ),
                            w.bump(),
                        )
                    }
                } else {
                    (Ok(None), w)
                },
                None => (Ok(None), w),
            }
        } else if alphabetic(c) {
            var_named(w, w, LSort::Msg)
        } else {
            (Ok(None), w)
        },
        None => (Ok(None), w),
    }
}

/// A variable with its suffix.
#[verifier::opaque]
pub open spec fn variable(s: PS) -> Step<VarM> {
    match var_head(s) {
        (Err(e), s1) => (Err(e), s1),
        (Ok(None), s1) => (Err(s1.err("expected variable"@)), s1),
        (Ok(Some(v)), s1) => suffixed(s1, v),
    }
}

/// Whether the variable that was just read could have had an index.
pub open spec fn plain_var(s: PS, v: VarM) -> bool {
    !s.h.dot_index && !s.h.sort_suffix && v.typ is None
}

/// The state that remembers what the variable could have gone on with.
#[verifier::opaque]
pub open spec fn var_noted(s: PS, v: VarM) -> PS {
    let dot = plain_var(s, v) && !nullary(s.sig, v.name);
    PS {
        h: Hangs {
            var_dot: dot,
            var_ident_end: if dot {
                s.h.last_ident_end
            } else {
                None
            },
            ..s.h
        },
        ..s
    }
}

/// A variable as a term, if one comes next.
#[verifier::opaque]
pub open spec fn var_term(s: PS) -> Step<Option<TermM>> {
    match var_head(s) {
        (Err(e), s1) => (Err(e), s1),
        (Ok(None), s1) => (Ok(None), s1),
        (Ok(Some(v)), s1) => match suffixed(s1, v) {
            (Err(e), s2) => (Err(e), s2),
            (Ok(v2), s2) => (Ok(Some(TermM::Var(v2))), var_noted(s2, v2)),
        },
    }
}

/// The labels of a variable in a pattern.
pub open spec fn sigil_labels() -> Seq<Seq<char>> {
    seq!["\"$\""@, "\"~\""@, "identifier"@, "\"#\""@, "\"%\""@]
}

/// The variable of a pattern.
#[verifier::opaque]
pub open spec fn pattern_var(s: PS) -> Step<TermM> {
    match var_term(s) {
        (Err(e), s1) => (Err(e), s1),
        (Ok(Some(t)), s1) => (Ok(t), s1),
        (Ok(None), s1) => s1.fail_expect(sigil_labels()),
    }
}

/// The term that a bare identifier stands for: a constant, or a variable with
/// the index and the suffix that follow.
#[verifier::opaque]
pub open spec fn bare_term(s: PS, id: Seq<char>) -> Step<TermM> {
    if nullary(s.sig, id) {
        (Ok(TermM::App(id, Seq::empty())), s)
    } else {
        let (idx, s1) = dot_index(s);
        match suffixed(s1, (VarM { name: id, idx, sort: LSort::Msg, typ: None })) {
            (Err(e), s2) => (Err(e), s2),
            (Ok(v), s2) => (Ok(TermM::Var(v)), var_noted(s2, v)),
        }
    }
}

impl SigState {
    /// What `op` stands for.
    pub fn lookup_arity(&self, op: &str) -> (r: Option<ArityRes>)
        ensures
            r == arity_of(self.deep_view(), op@),
    {
        proof {
            reveal(arity_of);
        }
        let own = smallest_opts(&self.fun_syms, op, None);
        let all = theory_noeq_syms(
            self.enable_dh,
            self.enable_bp,
            self.enable_xor,
            self.enable_nat,
        );
        match smallest_opts(&all, op, own) {
            Some(opts) => {
                return Some(ArityRes::NoEq { opts });
            },
            None => {},
        }
        if has_text(&self.ac_fun_syms, op) {
            return Some(ArityRes::Ac);
        }
        match find_opts(&self.macro_syms, op) {
            Some(opts) => {
                return Some(ArityRes::NoEq { opts });
            },
            None => {},
        }
        if same(op, "em") {
            Some(ArityRes::NoEq { opts: FunOptions::plain(2) })
        } else {
            None
        }
    }

    /// Whether `name` is a constant.
    pub fn is_nullary_sym(&self, name: &str) -> (r: bool)
        ensures
            r == nullary(self.deep_view(), name@),
    {
        proof {
            reveal(nullary);
        }
        let all = theory_noeq_syms(
            self.enable_dh,
            self.enable_bp,
            self.enable_xor,
            self.enable_nat,
        );
        has_constant(&self.fun_syms, name) || has_constant(&self.macro_syms, name) || has_constant(
            &all,
            name,
        )
    }
}

/// Whether the application is written with an infix operator.
pub fn is_dh_exp(res: ArityRes, id: &str) -> (r: bool)
    ensures
        r == is_exp(res, id@),
{
    same(id, "exp") && match res {
        ArityRes::NoEq { opts } => opts == FunOptions::plain(2),
        ArityRes::Ac => false,
    }
}

impl Parser {
    pub fn try_dot_index(&mut self) -> (r: u64)
        requires
            old(self).wf(),
        ensures
            final(self).wf(),
            (r, final(self)@) == dot_index(old(self)@),
            old(self)@.fwd(final(self)@),
    {
        proof {
            reveal(dot_index);
        }
        self.h.dot_index = false;
        let save = self.save();
        if self.peek() != Some('.') {
            return 0;
        }
        let digit = match self.peek2() {
            Some(c) => is_digit(c),
            None => false,
        };
        if !digit {
            return 0;
        }
        self.bump();
        match self.natural() {
            Some(n) => {
                self.h.dot_index = true;
                n
            },
            None => {
                self.restore(save);
                0
            },
        }
    }

    /// A type, and the offset at which its name ended.
    pub fn type_p_element(&mut self) -> (r: Option<(Option<String>, Option<usize>)>)
        requires
            old(self).wf(),
        ensures
            final(self).wf(),
            match type_elem(old(self)@) {
                (Some((t, o)), s) => r is Some && (r->0).0.deep_view() == t && (r->0).1 == o
                    && final(self)@ == s,
                (None, s) => r is None && final(self)@ == s,
            },
            old(self)@.past(final(self)@),
    {
        proof {
            reveal(type_elem);
        }
        self.skip_ws();
        let start = self.save();
        match self.identifier() {
            Some(id) => {
                if same(&id, "Any") {
                    Some((None, None))
                } else {
                    let n: usize = chars_of(&id).len();
                    let end = self.ident_end_from(start, n);
                    Some((Some(id), Some(end)))
                }
            },
            None => None,
        }
    }

    fn sort_keyword(&mut self) -> (r: Option<LSort>)
        requires
            old(self).wf(),
        ensures
            final(self).wf(),
            (r, final(self)@) == sort_word(old(self)@),
            old(self)@.past(final(self)@),
    {
        proof {
            reveal(sort_word);
        }
        if self.try_kw("msg") {
            return Some(LSort::Msg);
        }
        if self.try_kw("pub") {
            return Some(LSort::Pub);
        }
        if self.try_kw("fresh") {
            return Some(LSort::Fresh);
        }
        if self.try_kw("node") {
            return Some(LSort::Node);
        }
        if self.try_kw("nat") {
            return Some(LSort::Nat);
        }
        None
    }

    pub fn attach_sort_suffix(&mut self, v: VarSpec) -> (r: Result<VarSpec, ParseError>)
        requires
            old(self).wf(),
        ensures
            final(self).wf(),
            (outcome(r), final(self)@) == suffixed(old(self)@, v.deep_view()),
            old(self)@.fwd(final(self)@),
    {
        proof {
            reveal(suffixed);
        }
        self.h.sort_suffix = false;
        let save = self.save();
        if self.try_punct(":") {
            if self.mode.sapic {
                return match self.type_p_element() {
                    Some((t, _)) => Ok(VarSpec { typ: t, ..v }),
                    None => {
                        self.restore(save);
                        Ok(v)
                    },
                };
            }
            match self.sort_keyword() {
                Some(sort) => {
                    if sort == LSort::Nat && !self.sig.enable_nat {
                        return Err(
                            self.err_unexpected_message(
                                "nat-sorted variables requires the natural-numbers builtin",
                            ),
                        );
                    }
                    self.h.sort_suffix = true;
                    return Ok(VarSpec { sort, ..v });
                },
                None => {},
            }
            proof {
                reveal(sort_word);
            }
            match self.identifier() {
                Some(t) => {
                    return Ok(VarSpec { typ: Some(t), ..v });
                },
                None => {},
            }
            self.restore(save);
            return Ok(v);
        }
        if self.mode.sapic && v.sort == LSort::Node {
            return Ok(VarSpec { typ: Some("node".to_string()), ..v });
        }
        Ok(v)
    }

    fn var_of_sort(&mut self, start: Pos, sort: LSort) -> (r: Option<VarSpec>)
        requires
            old(self).wf(),
            position_of(old(self)@.src, start),
            start.at <= old(self)@.at,
        ensures
            final(self).wf(),
            (Ok::<Option<VarM>, ErrorM>(r.deep_view()), final(self)@) == var_named(
                old(self)@.to(start.at as int),
                old(self)@,
                sort,
            ),
            old(self)@.to(start.at as int).fwd(final(self)@),
            r is Some ==> start.at < final(self)@.at,
    {
        let pre = self.save();
        match self.identifier() {
            Some(id) => {
                let n: usize = chars_of(&id).len();
                let end = self.ident_end_from(pre, n);
                self.h.last_ident_end = Some(end);
                let idx = self.try_dot_index();
                Some(VarSpec { name: id, idx, sort, typ: None })
            },
            None => {
                self.restore(start);
                None
            },
        }
    }

    /// A variable without a suffix, if one comes next.
    pub fn try_var_spec(&mut self) -> (r: Result<Option<VarSpec>, ParseError>)
        requires
            old(self).wf(),
        ensures
            final(self).wf(),
            (outcome(r), final(self)@) == var_head(old(self)@),
            old(self)@.fwd(final(self)@),
            (r matches Ok(o) && o is Some) ==> old(self)@.at < final(self)@.at,
    {
        proof {
            reveal(var_head);
        }
        self.skip_ws();
        let start = self.save();
        let c = match self.peek() {
            Some(c) => c,
            None => {
                return Ok(None);
            },
        };
        if c == '~' {
            self.bump();
            Ok(self.var_of_sort(start, LSort::Fresh))
        } else if c == '$' {
            self.bump();
            Ok(self.var_of_sort(start, LSort::Pub))
        } else if c == '#' {
            self.bump();
            Ok(self.var_of_sort(start, LSort::Node))
        } else if c == '%' {
            let d = match self.peek2() {
                Some(d) => d,
                None => {
                    return Ok(None);
                },
            };
            if d == '\'' || !crate::text::is_word_char(d) {
                return Ok(None);
            }
            let enabled = self.sig.enable_nat;
            self.bump();
            if !enabled {
                return Err(
                    self.err("nat-sorted variables requires the natural-numbers builtin"),
                );
            }
            Ok(self.var_of_sort(start, LSort::Nat))
        } else if crate::text::is_letter(c) {
            Ok(self.var_of_sort(start, LSort::Msg))
        } else {
            Ok(None)
        }
    }

    /// A variable with its suffix.
    pub fn var_spec(&mut self) -> (r: Result<VarSpec, ParseError>)
        requires
            old(self).wf(),
        ensures
            final(self).wf(),
            (outcome(r), final(self)@) == variable(old(self)@),
            old(self)@.fwd(final(self)@),
            r is Ok ==> old(self)@.at < final(self)@.at,
    {
        proof {
            reveal(variable);
        }
        match self.try_var_spec()? {
            Some(v) => self.attach_sort_suffix(v),
            None => Err(self.err("expected variable")),
        }
    }

    /// Remembers what the variable could have gone on with.
    pub fn note_var_dot_hangover(&mut self, v: &VarSpec)
        requires
            old(self).wf(),
        ensures
            final(self).wf(),
            final(self)@ == var_noted(old(self)@, v.deep_view()),
            old(self)@.fwd(final(self)@),
            final(self)@.at == old(self)@.at,
    {
        proof {
            reveal(var_noted);
        }
        let dot = !self.h.dot_index && !self.h.sort_suffix && v.typ.is_none()
            && !self.sig.is_nullary_sym(&v.name);
        self.h.var_dot = dot;
        self.h.var_ident_end = if dot {
            self.h.last_ident_end
        } else {
            None
        };
    }

    /// A variable as a term, if one comes next.
    pub fn sorted_var_term(&mut self) -> (r: Result<Option<crate::ast::Term>, ParseError>)
        requires
            old(self).wf(),
        ensures
            final(self).wf(),
            (outcome(r), final(self)@) == var_term(old(self)@),
            old(self)@.fwd(final(self)@),
            (r matches Ok(o) && o is Some) ==> old(self)@.at < final(self)@.at,
    {
        proof {
            reveal(var_term);
        }
        match self.try_var_spec()? {
            Some(v) => {
                let v = self.attach_sort_suffix(v)?;
                self.note_var_dot_hangover(&v);
                Ok(Some(crate::ast::Term::Var(v)))
            },
            None => Ok(None),
        }
    }

    /// The variable of a pattern.
    pub fn pattern_var_atom(&mut self) -> (r: Result<crate::ast::Term, ParseError>)
        requires
            old(self).wf(),
        ensures
            final(self).wf(),
            (outcome(r), final(self)@) == pattern_var(old(self)@),
            old(self)@.fwd(final(self)@),
    {
        proof {
            reveal(pattern_var);
        }
        match self.sorted_var_term()? {
            Some(t) => Ok(t),
            None => {
                let mut v = labels3("\"$\"", "\"~\"", "identifier");
                put(&mut v, "\"#\"".to_string());
                put(&mut v, "\"%\"".to_string());
                assert(v.deep_view() =~= sigil_labels());
                Err(self.err_expect(v))
            },
        }
    }

    /// The term that a bare identifier stands for.
    pub fn bare_ident_term(&mut self, id: String) -> (r: Result<crate::ast::Term, ParseError>)
        requires
            old(self).wf(),
        ensures
            final(self).wf(),
            (outcome(r), final(self)@) == bare_term(old(self)@, id@),
            old(self)@.fwd(final(self)@),
    {
        proof {
            reveal(bare_term);
        }
        if self.sig.is_nullary_sym(&id) {
            return Ok(crate::ast::Term::App(id, crate::model::no_items::<crate::ast::Term>()));
        }
        let idx = self.try_dot_index();
        let v = VarSpec { name: id, idx, sort: LSort::Msg, typ: None };
        let v = self.attach_sort_suffix(v)?;
        self.note_var_dot_hangover(&v);
        Ok(crate::ast::Term::Var(v))
    }
}

} // verus!
