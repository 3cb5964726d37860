//! Where a theory stands, and what hangs on it.

use crate::ast::{ItemM, TheoryM};
use crate::error::ErrorM;
use crate::flags::holds;
use crate::items::{behind_directive, directive};
use crate::parser::{closing, cut, read, read_from, reading, settled, start_in, start_of};
use crate::paths::{file_name_of, parent_of};
use crate::state::{PS, group_steps, InputAliasM, SourceFileM, StateM, Step};
use crate::theory::{
    back_in_place, bare, behind_endif, branch_end, condition_here, conditional, configuration,
    cycle_text, file_at, fragment, included, included_path, included_staged, item_here, items,
    no_item_here, resumed, room, sourced, theory, unread, with_input, BranchEnd,
};
use vstd::prelude::*;

verus! {

broadcast use {group_steps, crate::tokens::group_lexer};

/// The inputs that the live `#include` at `s` brings: the file it names, and
/// those that are included from there.
pub open spec fn included_entries(s: PS) -> Seq<InputAliasM>
    decreases room(s.st), s.rem(), 0int,
{
    proof {
        reveal(PS::literal);
    }
    match behind_directive(s).ws().need_literal() {
        (Err(_), _) => Seq::empty(),
        (Ok(raw), s1) => {
            let path = included_path(s1.place.base_dir, raw);
            let staged = included_staged(s1.place.staged_file, raw);
            let s2 = with_input(s1, path, staged);
            seq![InputAliasM { physical: path, staged }] + (match file_at(s2.st.files, path, 0) {
                None => Seq::empty(),
                Some(f) => match f.content {
                    Err(_) => Seq::empty(),
                    Ok(text) => if s2.st.include_stack.contains(f.canonical) || room(s2.st) == 0 {
                        Seq::empty()
                    } else {
                        entries(fragment(s2, text, path, staged, f.canonical))
                    },
                },
            })
        },
    }
}

/// The inputs that the live branch of the condition at `s` brings.
pub open spec fn conditional_entries(s: PS) -> Seq<InputAliasM>
    decreases room(s.st), s.rem(), 0int,
{
    proof {
        reveal(condition_here);
    }
    let s1 = behind_directive(s).ws();
    match condition_here(s1) {
        (Err(_), _) => Seq::empty(),
        (Ok(cond), s2) => if s2.at <= s.at {
            Seq::empty()
        } else if holds(cond, s2.st.flags) {
            entries(s2)
        } else {
            match branch_end(s2, 0) {
                (BranchEnd::Else, s3) => if !s2.past(s3) {
                    Seq::empty()
                } else {
                    entries(s3)
                },
                _ => Seq::empty(),
            }
        },
    }
}

/// The inputs that the items from `s` on bring: one for each live `#include`,
/// in the order in which they are met.
pub open spec fn entries(s: PS) -> Seq<InputAliasM>
    decreases room(s.st), s.rem(), 1int,
{
    let w = s.ws();
    let d = directive(w);
    if w.eof() || w.at_kw("end"@) || d == Some("endif"@) || d == Some("else"@) {
        Seq::empty()
    } else {
        let first = if d == Some("include"@) {
            included_entries(w)
        } else if d == Some("ifdef"@) {
            conditional_entries(w)
        } else {
            Seq::empty()
        };
        let r = if d == Some("include"@) {
            included(w)
        } else if d == Some("ifdef"@) {
            conditional(w)
        } else {
            match item_here(w) {
                (Ok(x), s1) => (Ok(seq![x]), s1),
                (Err(e), s1) => (Err(e), s1),
            }
        };
        match r {
            (Err(_), _) => first,
            (Ok(_), s1) => if w.ahead(s1) && w.at < s1.at {
                first + entries(s1)
            } else {
                first
            },
        }
    }
}

/// The inputs of a theory: none where it breaks off before its items.
pub open spec fn theory_entries(s: PS) -> Seq<InputAliasM> {
    match s.ws().need_kw("theory"@) {
        (Err(_), _) => Seq::empty(),
        (Ok(_), s1) => match s1.ident() {
            (Err(_), _) => Seq::empty(),
            (Ok(_), s2) => match configuration(s2) {
                (Err(_), _) => Seq::empty(),
                (Ok(_), s3) => entries(s3),
            },
        },
    }
}

/// To pass over a dead branch changes nothing but the position.
pub proof fn lemma_skips(s: PS, depth: int)
    ensures
        branch_end(s, depth).1 == s.to(branch_end(s, depth).1.at),
        behind_endif(s, depth) == s.to(behind_endif(s, depth).at),
    decreases s.rem(),
{
    let w = s.ws();
    if w.peek() is Some {
        lemma_skips(w.bump(), depth);
        if w.sees("#endif"@) {
            lemma_skips(w.eat("#endif"@).1, depth - 1);
        }
        if let Some(d) = directive(w) {
            let s1 = behind_directive(w);
            lemma_skips(s1, depth + 1);
            lemma_skips(s1, depth - 1);
            lemma_skips(s1, depth);
        }
    }
}

proof fn lemma_included_entries(s: PS)
    ensures
        included(s).1.st.input_aliases == s.st.input_aliases + included_entries(s),
    decreases room(s.st), s.rem(), 0int,
{
    reveal(PS::literal);
    let (raw, s1) = behind_directive(s).ws().need_literal();
    assert(s1.st == s.st);
    if raw is Err {
        assert(s.st.input_aliases + Seq::empty() =~= s.st.input_aliases);
    } else {
        let path = included_path(s1.place.base_dir, raw->Ok_0);
        let staged = included_staged(s1.place.staged_file, raw->Ok_0);
        let s2 = with_input(s1, path, staged);
        let one = seq![InputAliasM { physical: path, staged }];
        let was = s.st.input_aliases;
        assert(s2.st.input_aliases =~= was + (one + Seq::empty()));
        if let Some(f) = file_at(s2.st.files, path, 0) {
            if let Ok(text) = f.content {
                if !s2.st.include_stack.contains(f.canonical) && room(s2.st) != 0 {
                    let frag = fragment(s2, text, path, staged, f.canonical);
                    lemma_entries(frag, Seq::empty());
                    assert(s2.st.input_aliases + entries(frag) =~= was + (one + entries(frag)));
                }
            }
        }
    }
}

proof fn lemma_conditional_entries(s: PS)
    ensures
        conditional(s).1.st.input_aliases == s.st.input_aliases + conditional_entries(s),
    decreases room(s.st), s.rem(), 0int,
{
    reveal(PS::punct);
    reveal(condition_here);
    let was = s.st.input_aliases;
    assert(was + Seq::empty() =~= was);
    let s1 = behind_directive(s).ws();
    let (cond, s2) = condition_here(s1);
    if cond is Ok && s2.at > s.at {
        if holds(cond->Ok_0, s2.st.flags) {
            lemma_entries(s2, Seq::empty());
            let s3 = items(s2, Seq::empty()).1;
            lemma_skips(s3.punct("#else"@).1, 0);
        } else {
            lemma_skips(s2, 0);
            let (end, s3) = branch_end(s2, 0);
            if end is Else && s2.past(s3) {
                lemma_entries(s3, Seq::empty());
            }
        }
    }
}

proof fn lemma_entries(s: PS, acc: Seq<ItemM>)
    ensures
        items(s, acc).1.st.input_aliases == s.st.input_aliases + entries(s),
    decreases room(s.st), s.rem(), 1int,
{
    let was = s.st.input_aliases;
    assert(was + Seq::empty() =~= was);
    let w = s.ws();
    let d = directive(w);
    if !(w.eof() || w.at_kw("end"@) || d == Some("endif"@) || d == Some("else"@)) {
        lemma_here(w, w);
        if d == Some("include"@) {
            lemma_included_entries(w);
            let (r, s1) = included(w);
            if r is Ok && w.ahead(s1) && w.at < s1.at {
                lemma_entries(s1, acc + r->Ok_0);
                assert((was + included_entries(w)) + entries(s1) =~= was + (included_entries(w)
                    + entries(s1)));
            }
        } else if d == Some("ifdef"@) {
            lemma_conditional_entries(w);
            let (r, s1) = conditional(w);
            if r is Ok && w.ahead(s1) && w.at < s1.at {
                lemma_entries(s1, acc + r->Ok_0);
                assert((was + conditional_entries(w)) + entries(s1) =~= was + (conditional_entries(
                    w,
                ) + entries(s1)));
            }
        } else {
            let (r, s1) = item_here(w);
            if r is Ok && w.ahead(s1) && w.at < s1.at {
                lemma_entries(s1, acc + seq![r->Ok_0]);
                assert(Seq::empty() + entries(s1) =~= entries(s1));
            }
        }
    }
}

/// Whether the states differ in nothing that an item can see.
pub open spec fn akin(s: PS, t: PS) -> bool {
    bare(s) == bare(t)
}

/// What an item sees decides what is read, but for the file that is recorded.
proof fn lemma_here(s: PS, t: PS)
    requires
        akin(s, t),
    ensures
        item_here(s).0 matches Err(e) ==> item_here(t).0 == Err::<ItemM, ErrorM>(e),
        item_here(s).0 matches Ok(x) ==> item_here(t).0 is Ok && item_here(t).0->Ok_0 == sourced(
            x,
            t.place.source_file,
        ),
        akin(item_here(s).1, item_here(t).1),
        item_here(s).1 == back_in_place(s, item_here(s).1),
        item_here(t).1 == back_in_place(t, item_here(t).1),
{
    reveal(item_here);
}

/// What tokens come next does not hang on where the text stands.
#[verifier::spinoff_prover]
proof fn lemma_tokens(s: PS, t: PS, p: Seq<char>)
    requires
        akin(s, t),
    ensures
        s.src == t.src && s.at == t.at,
        s.ws().at == t.ws().at,
        directive(s) == directive(t),
        behind_directive(s).at == behind_directive(t).at,
        s.kw(p).0 == t.kw(p).0,
        s.kw(p).1.at == t.kw(p).1.at,
        s.punct(p).0 == t.punct(p).0,
        s.punct(p).1.at == t.punct(p).1.at,
        s.need(p).0 == t.need(p).0,
        s.need(p).1 == s.to(t.need(p).1.at),
        s.need_kw(p).0 == t.need_kw(p).0,
        s.need_kw(p).1 == s.to(t.need_kw(p).1.at),
        s.need_literal().0 == t.need_literal().0,
        s.need_literal().1 == s.to(t.need_literal().1.at),
        s.ident().0 == t.ident().0,
        s.ident().1 == s.to(t.ident().1.at),
        s.err(p) == t.err(p),
        s.fail_expect::<Option<Seq<char>>>(seq![p]).0 == t.fail_expect::<Option<Seq<char>>>(
            seq![p],
        ).0,
{
    assert(s.src == bare(s).src && s.at == bare(s).at);
    assert(t.src == bare(t).src && t.at == bare(t).at);
    reveal(PS::kw);
    reveal(PS::punct);
    reveal(PS::literal);
    reveal(PS::ident);
    reveal(PS::name);
    reveal(PS::reserved_error);
    reveal(PS::error);
    reveal(PS::token);
}

/// Whether the states differ at most in the directory, the files that are
/// recorded and the warnings that are given; in the directory alone, where
/// `exact`.
#[verifier::opaque]
pub open spec fn twin(s: PS, t: PS, exact: bool) -> bool {
    &&& akin(s, t)
    &&& s.st.files == t.st.files
    &&& s.st.include_stack == t.st.include_stack
    &&& s.st.wanted == t.st.wanted
    &&& exact ==> s.st.emit_warnings == t.st.emit_warnings && s.st.axiom_warning
        == t.st.axiom_warning && s.place.source_file == t.place.source_file
}

/// Whether the items are equal up to the files they were read from; and these
/// too, where `exact`.
#[verifier::opaque]
pub open spec fn alike(v: Seq<ItemM>, w: Seq<ItemM>, exact: bool) -> bool {
    &&& v.len() == w.len()
    &&& forall|i: int|
        0 <= i < v.len() ==> sourced(#[trigger] v[i], None) == sourced(w[i], None)
    &&& exact ==> v == w
}

/// Whether the readings agree.
pub open spec fn agree(a: Step<Seq<ItemM>>, b: Step<Seq<ItemM>>, exact: bool) -> bool {
    &&& match (a.0, b.0) {
        (Ok(v), Ok(w)) => alike(v, w, exact),
        (Err(e), Err(f)) => e == f,
        _ => false,
    }
    &&& twin(a.1, b.1, exact)
}

#[verifier::spinoff_prover]
proof fn lemma_twin_tokens(s: PS, t: PS, p: Seq<char>, exact: bool)
    requires
        twin(s, t, exact),
    ensures
        s.src == t.src && s.at == t.at && s.rem() == t.rem(),
        s.st.flags == t.st.flags,
        s.st.files == t.st.files,
        s.st.include_stack == t.st.include_stack,
        twin(s.ws(), t.ws(), exact),
        directive(s) == directive(t),
        twin(behind_directive(s), behind_directive(t), exact),
        s.eof() == t.eof(),
        s.peek() == t.peek(),
        twin(s.bump(), t.bump(), exact),
        s.sees(p) == t.sees(p),
        twin(s.eat(p).1, t.eat(p).1, exact),
        s.kw(p).0 == t.kw(p).0,
        twin(s.kw(p).1, t.kw(p).1, exact),
        s.punct(p).0 == t.punct(p).0,
        twin(s.punct(p).1, t.punct(p).1, exact),
        s.need(p).0 == t.need(p).0,
        twin(s.need(p).1, t.need(p).1, exact),
        s.need_kw(p).0 == t.need_kw(p).0,
        twin(s.need_kw(p).1, t.need_kw(p).1, exact),
        s.need_literal().0 == t.need_literal().0,
        twin(s.need_literal().1, t.need_literal().1, exact),
        s.ident().0 == t.ident().0,
        twin(s.ident().1, t.ident().1, exact),
        s.err(p) == t.err(p),
{
    reveal(twin);
    lemma_tokens(s, t, p);
    lemma_tokens(t, s, p);
}

#[verifier::spinoff_prover]
proof fn lemma_twin_here(s: PS, t: PS, exact: bool)
    requires
        twin(s, t, exact),
    ensures
        match (item_here(s).0, item_here(t).0) {
            (Ok(x), Ok(y)) => alike(seq![x], seq![y], exact),
            (Err(e), Err(f)) => e == f,
            _ => false,
        },
        twin(item_here(s).1, item_here(t).1, exact),
        s.ahead(item_here(s).1) == t.ahead(item_here(t).1),
        condition_here(s).0 == condition_here(t).0,
        twin(condition_here(s).1, condition_here(t).1, exact),
{
    reveal(twin);
    reveal(alike);
    reveal(item_here);
    reveal(condition_here);
}

proof fn lemma_twin_skips(s: PS, t: PS, depth: int, exact: bool)
    requires
        twin(s, t, exact),
    ensures
        branch_end(s, depth).0 == branch_end(t, depth).0,
        twin(branch_end(s, depth).1, branch_end(t, depth).1, exact),
        twin(behind_endif(s, depth), behind_endif(t, depth), exact),
    decreases s.rem(),
{
    lemma_twin_tokens(s, t, Seq::empty(), exact);
    let w = s.ws();
    let v = t.ws();
    lemma_twin_tokens(w, v, "#endif"@, exact);
    if w.peek() is Some {
        lemma_twin_skips(w.bump(), v.bump(), depth, exact);
        if w.sees("#endif"@) {
            let s1 = w.eat("#endif"@).1;
            let t1 = v.eat("#endif"@).1;
            lemma_twin_skips(s1, t1, depth - 1, exact);
            lemma_twin_tokens(s1, t1, Seq::empty(), exact);
        }
        if let Some(d) = directive(w) {
            let s1 = behind_directive(w);
            let t1 = behind_directive(v);
            lemma_twin_skips(s1, t1, depth + 1, exact);
            lemma_twin_skips(s1, t1, depth - 1, exact);
            lemma_twin_skips(s1, t1, depth, exact);
        }
    }
}

proof fn lemma_joined(v: Seq<ItemM>, w: Seq<ItemM>, a: Seq<ItemM>, b: Seq<ItemM>, exact: bool)
    requires
        alike(v, w, exact),
        alike(a, b, exact),
    ensures
        alike(v + a, w + b, exact),
{
    reveal(alike);
    assert forall|i: int| 0 <= i < (v + a).len() implies sourced(#[trigger] (v + a)[i], None)
        == sourced((w + b)[i], None) by {
        if i < v.len() {
            assert((v + a)[i] == v[i]);
        } else {
            assert((v + a)[i] == a[i - v.len()]);
        }
    }
}

/// Whether the directory of the two is the same, or of no account.
pub open spec fn placed_alike(s: PS, t: PS, met: Seq<InputAliasM>) -> bool {
    s.place.base_dir == t.place.base_dir || met.len() == 0
}

/// What is included leaves the text where it stands.
proof fn lemma_included_place(s: PS)
    ensures
        included(s).1.place == s.place,
        included(s).1.src == s.src && included(s).1.mode == s.mode,
        included(s).1.st.include_stack == s.st.include_stack,
{
    reveal(PS::literal);
}

proof fn lemma_conditional_place(s: PS)
    ensures
        conditional(s).1.place == s.place,
    decreases room(s.st), s.rem(), 0int,
{
    reveal(PS::punct);
    reveal(condition_here);
    let s1 = behind_directive(s).ws();
    let (cond, s2) = condition_here(s1);
    if cond is Ok && s2.at > s.at {
        if holds(cond->Ok_0, s2.st.flags) {
            lemma_items_place(s2, Seq::empty());
            let s3 = items(s2, Seq::empty()).1;
            lemma_skips(s3.punct("#else"@).1, 0);
        } else {
            lemma_skips(s2, 0);
            let (end, s3) = branch_end(s2, 0);
            if end is Else && s2.past(s3) {
                lemma_items_place(s3, Seq::empty());
            }
        }
    }
}

proof fn lemma_items_place(s: PS, acc: Seq<ItemM>)
    ensures
        items(s, acc).1.place == s.place,
    decreases room(s.st), s.rem(), 1int,
{
    let w = s.ws();
    let d = directive(w);
    if !(w.eof() || w.at_kw("end"@) || d == Some("endif"@) || d == Some("else"@)) {
        lemma_here(w, w);
        lemma_included_place(w);
        lemma_conditional_place(w);
        let (r, s1) = included(w);
        if d == Some("include"@) && r is Ok && w.ahead(s1) && w.at < s1.at {
            lemma_items_place(s1, acc + r->Ok_0);
        }
        let (q, s2) = conditional(w);
        if d == Some("ifdef"@) && q is Ok && w.ahead(s2) && w.at < s2.at {
            lemma_items_place(s2, acc + q->Ok_0);
        }
        let (x, s3) = item_here(w);
        if d != Some("include"@) && d != Some("ifdef"@) && x is Ok && w.ahead(s3) && w.at < s3.at {
            lemma_items_place(s3, acc + seq![x->Ok_0]);
        }
    }
}

#[verifier::spinoff_prover]
proof fn lemma_twin_ahead(w: PS, v: PS, s: PS, t: PS, exact: bool)
    requires
        twin(w, v, exact),
        twin(s, t, exact),
        s.place == w.place,
        t.place == v.place,
    ensures
        w.ahead(s) == v.ahead(t),
{
    reveal(twin);
    assert(w.src == bare(w).src && w.at == bare(w).at && w.mode == bare(w).mode);
    assert(v.src == bare(v).src && v.at == bare(v).at && v.mode == bare(v).mode);
    assert(s.src == bare(s).src && s.at == bare(s).at && s.mode == bare(s).mode);
    assert(t.src == bare(t).src && t.at == bare(t).at && t.mode == bare(t).mode);
}

#[verifier::spinoff_prover]
proof fn lemma_twin_fragment(
    s: PS,
    t: PS,
    path: Seq<char>,
    staged: Option<Seq<char>>,
    other: Option<Seq<char>>,
    text: Seq<char>,
    canonical: Seq<char>,
    exact: bool,
)
    requires
        twin(s, t, exact),
    ensures
        twin(with_input(s, path, staged), with_input(t, path, other), exact),
        twin(
            fragment(with_input(s, path, staged), text, path, staged, canonical),
            fragment(with_input(t, path, other), text, path, other, canonical),
            exact,
        ),
        twin(
            (PS {
                st: StateM { wanted: Some(path), ..with_input(s, path, staged).st },
                ..with_input(s, path, staged)
            }),
            (PS {
                st: StateM { wanted: Some(path), ..with_input(t, path, other).st },
                ..with_input(t, path, other)
            }),
            exact,
        ),
{
    reveal(twin);
    let (a, b) = (bare(s), bare(t));
    assert(s.src == a.src && s.at == a.at && s.sig == a.sig && s.mode == a.mode && s.h == a.h);
    assert(t.src == b.src && t.at == b.at && t.sig == b.sig && t.mode == b.mode && t.h == b.h);
    assert(s.st.flags == a.st.flags && s.st.seen == a.st.seen);
    assert(t.st.flags == b.st.flags && t.st.seen == b.st.seen);
    assert(s.place.is_diff == a.place.is_diff && t.place.is_diff == b.place.is_diff);
}

#[verifier::spinoff_prover]
proof fn lemma_twin_resumed(s: PS, t: PS, a: PS, b: PS, exact: bool)
    requires
        twin(s, t, exact),
        twin(a, b, exact),
    ensures
        twin(resumed(s, a), resumed(t, b), exact),
{
    reveal(twin);
    let (c, d) = (bare(s), bare(t));
    assert(s.src == c.src && s.at == c.at && s.mode == c.mode && s.h == c.h);
    assert(t.src == d.src && t.at == d.at && t.mode == d.mode && t.h == d.h);
    assert(s.place.is_diff == c.place.is_diff && t.place.is_diff == d.place.is_diff);
    let (e, f) = (bare(a), bare(b));
    assert(a.sig == e.sig && b.sig == f.sig);
    assert(a.st.flags == e.st.flags && a.st.seen == e.st.seen);
    assert(b.st.flags == f.st.flags && b.st.seen == f.st.seen);
}

#[verifier::spinoff_prover]
proof fn lemma_twin_included(s: PS, t: PS, exact: bool)
    requires
        twin(s, t, exact),
        placed_alike(s, t, included_entries(s)),
    ensures
        agree(included(s), included(t), exact),
    decreases room(s.st), s.rem(), 0int,
{
    reveal(PS::literal);
    lemma_twin_tokens(s, t, Seq::empty(), exact);
    let a = behind_directive(s);
    let b = behind_directive(t);
    lemma_twin_tokens(a, b, Seq::empty(), exact);
    lemma_twin_tokens(a.ws(), b.ws(), Seq::empty(), exact);
    let (raw, s1) = a.ws().need_literal();
    let t1 = b.ws().need_literal().1;
    if raw is Ok {
        let path = included_path(s1.place.base_dir, raw->Ok_0);
        let staged = included_staged(s1.place.staged_file, raw->Ok_0);
        let other = included_staged(t1.place.staged_file, raw->Ok_0);
        assert(included_entries(s).len() > 0);
        assert(path == included_path(t1.place.base_dir, raw->Ok_0));
        let s2 = with_input(s1, path, staged);
        let t2 = with_input(t1, path, other);
        lemma_twin_fragment(s1, t1, path, staged, other, Seq::empty(), path, exact);
        lemma_twin_tokens(s2, t2, unread(path, "it is not at hand"@), exact);
        if let Some(f) = file_at(s2.st.files, path, 0) {
            if let Err(why) = f.content {
                lemma_twin_tokens(s2, t2, unread(path, why), exact);
            }
            if let Ok(text) = f.content {
                lemma_twin_tokens(
                    s2,
                    t2,
                    cycle_text(s2.st.include_stack, f.canonical),
                    exact,
                );
                lemma_twin_tokens(s2, t2, Seq::empty(), exact);
                if !s2.st.include_stack.contains(f.canonical) && room(s2.st) != 0 {
                    lemma_twin_fragment(s1, t1, path, staged, other, text, f.canonical, exact);
                    let p = fragment(s2, text, path, staged, f.canonical);
                    let q = fragment(t2, text, path, other, f.canonical);
                    lemma_twin_items(p, q, Seq::empty(), Seq::empty(), exact);
                    let c = items(p, Seq::empty()).1;
                    let d = items(q, Seq::empty()).1;
                    lemma_twin_tokens(c, d, Seq::empty(), exact);
                    lemma_twin_tokens(
                        c.ws(),
                        d.ws(),
                        "unexpected trailing input in included file"@,
                        exact,
                    );
                    lemma_twin_resumed(s2, t2, c, d, exact);
                }
            }
        }
    }
}

#[verifier::spinoff_prover]
proof fn lemma_twin_conditional(s: PS, t: PS, exact: bool)
    requires
        twin(s, t, exact),
        placed_alike(s, t, conditional_entries(s)),
    ensures
        agree(conditional(s), conditional(t), exact),
    decreases room(s.st), s.rem(), 0int,
{
    reveal(condition_here);
    lemma_twin_tokens(s, t, Seq::empty(), exact);
    lemma_twin_tokens(behind_directive(s), behind_directive(t), Seq::empty(), exact);
    let s1 = behind_directive(s).ws();
    let t1 = behind_directive(t).ws();
    lemma_twin_here(s1, t1, exact);
    let (cond, s2) = condition_here(s1);
    let t2 = condition_here(t1).1;
    lemma_twin_tokens(s2, t2, Seq::empty(), exact);
    if cond is Ok && s2.at > s.at {
        if holds(cond->Ok_0, s2.st.flags) {
            lemma_twin_items(s2, t2, Seq::empty(), Seq::empty(), exact);
            let s3 = items(s2, Seq::empty()).1;
            let t3 = items(t2, Seq::empty()).1;
            lemma_twin_tokens(s3, t3, "#else"@, exact);
            let s4 = s3.punct("#else"@).1;
            let t4 = t3.punct("#else"@).1;
            lemma_twin_tokens(s4, t4, "#endif"@, exact);
            let s5 = s4.punct("#endif"@).1;
            let t5 = t4.punct("#endif"@).1;
            lemma_twin_tokens(s5, t5, "expected #endif or #else"@, exact);
            lemma_twin_skips(s4, t4, 0, exact);
        } else {
            lemma_twin_skips(s2, t2, 0, exact);
            lemma_skips(s2, 0);
            lemma_skips(t2, 0);
            let (end, s3) = branch_end(s2, 0);
            let t3 = branch_end(t2, 0).1;
            lemma_twin_tokens(s3, t3, "unterminated #ifdef"@, exact);
            if end is Else && s2.past(s3) {
                lemma_twin_items(s3, t3, Seq::empty(), Seq::empty(), exact);
                lemma_twin_tokens(
                    items(s3, Seq::empty()).1,
                    items(t3, Seq::empty()).1,
                    "#endif"@,
                    exact,
                );
            }
        }
    }
    reveal(alike);
}

#[verifier::spinoff_prover]
proof fn lemma_twin_items(s: PS, t: PS, acc: Seq<ItemM>, other: Seq<ItemM>, exact: bool)
    requires
        twin(s, t, exact),
        alike(acc, other, exact) || (acc.len() == 0 && other.len() == 0),
        placed_alike(s, t, entries(s)),
    ensures
        agree(items(s, acc), items(t, other), exact),
    decreases room(s.st), s.rem(), 1int,
{
    assert(alike(acc, other, exact)) by {
        reveal(alike);
        if acc.len() == 0 {
            assert(acc =~= other);
        }
    }
    lemma_twin_tokens(s, t, Seq::empty(), exact);
    let w = s.ws();
    let v = t.ws();
    lemma_twin_tokens(w, v, "end"@, exact);
    lemma_twin_tokens(w, v, Seq::empty(), exact);
    let d = directive(w);
    if !(w.eof() || w.at_kw("end"@) || d == Some("endif"@) || d == Some("else"@)) {
        if d == Some("include"@) {
            lemma_twin_included(w, v, exact);
            lemma_included_place(w);
            lemma_included_place(v);
            let (r, s1) = included(w);
            let (q, t1) = included(v);
            lemma_twin_ahead(w, v, s1, t1, exact);
            lemma_twin_tokens(s1, t1, Seq::empty(), exact);
            if r is Ok && w.ahead(s1) && w.at < s1.at {
                lemma_joined(acc, other, r->Ok_0, q->Ok_0, exact);
                lemma_twin_items(s1, t1, acc + r->Ok_0, other + q->Ok_0, exact);
            }
        } else if d == Some("ifdef"@) {
            lemma_twin_conditional(w, v, exact);
            lemma_conditional_place(w);
            lemma_conditional_place(v);
            let (r, s1) = conditional(w);
            let (q, t1) = conditional(v);
            lemma_twin_ahead(w, v, s1, t1, exact);
            lemma_twin_tokens(s1, t1, Seq::empty(), exact);
            if r is Ok && w.ahead(s1) && w.at < s1.at {
                lemma_joined(acc, other, r->Ok_0, q->Ok_0, exact);
                lemma_twin_items(s1, t1, acc + r->Ok_0, other + q->Ok_0, exact);
            }
        } else {
            lemma_twin_here(w, v, exact);
            lemma_here(w, w);
            lemma_here(v, v);
            let (r, s1) = item_here(w);
            let (q, t1) = item_here(v);
            lemma_twin_tokens(s1, t1, Seq::empty(), exact);
            if r is Ok && w.ahead(s1) && w.at < s1.at {
                lemma_joined(acc, other, seq![r->Ok_0], seq![q->Ok_0], exact);
                lemma_twin_items(s1, t1, acc + seq![r->Ok_0], other + seq![q->Ok_0], exact);
            }
        }
    }
}

#[verifier::spinoff_prover]
proof fn lemma_twin_configuration(s: PS, t: PS, exact: bool)
    requires
        twin(s, t, exact),
    ensures
        configuration(s).0 == configuration(t).0,
        twin(configuration(s).1, configuration(t).1, exact),
        configuration(s).1.place == s.place,
        configuration(s).1.st == s.st,
{
    reveal(configuration);
    lemma_twin_tokens(s, t, "configuration"@, exact);
    lemma_twin_tokens(s, t, "begin"@, exact);
    lemma_twin_tokens(s.ws(), t.ws(), Seq::empty(), exact);
    let s1 = s.kw("configuration"@).1;
    let t1 = t.kw("configuration"@).1;
    lemma_twin_tokens(s1, t1, ":"@, exact);
    let s2 = s1.need(":"@).1;
    let t2 = t1.need(":"@).1;
    lemma_twin_tokens(s2, t2, "begin"@, exact);
    let s3 = s2.need_literal().1;
    let t3 = t2.need_literal().1;
    lemma_twin_tokens(s3, t3, "begin"@, exact);
    lemma_own_tokens(s, "configuration or begin"@);
    lemma_own_tokens(s1, ":"@);
    lemma_own_tokens(s2, Seq::empty());
    lemma_own_tokens(s3, "begin"@);
    lemma_expected(s, t, "configuration or begin"@, exact);
}

proof fn lemma_own_tokens(s: PS, p: Seq<char>)
    ensures
        s.need(p).1 == s.to(s.need(p).1.at),
        s.need_kw(p).1 == s.to(s.need_kw(p).1.at),
        s.need_literal().1 == s.to(s.need_literal().1.at),
        s.ident().1 == s.to(s.ident().1.at),
{
    lemma_tokens(s, s, p);
}

proof fn lemma_expected(s: PS, t: PS, p: Seq<char>, exact: bool)
    requires
        twin(s, t, exact),
    ensures
        s.fail_expect::<Option<Seq<char>>>(seq![p]).0 == t.fail_expect::<Option<Seq<char>>>(
            seq![p],
        ).0,
{
    reveal(twin);
    lemma_tokens(s, t, p);
}

/// Whether the theories are equal up to the files that their items were read
/// from; and these too, where `exact`.
pub open spec fn same_theory(x: TheoryM, y: TheoryM, exact: bool) -> bool {
    &&& x.is_diff == y.is_diff
    &&& x.name == y.name
    &&& x.configuration == y.configuration
    &&& alike(x.items, y.items, exact)
}

#[verifier::spinoff_prover]
proof fn lemma_twin_stop(s: PS, t: PS, exact: bool)
    requires
        twin(s, t, exact),
    ensures
        no_item_here::<TheoryM>(s).0 == no_item_here::<TheoryM>(t).0,
        twin(no_item_here::<TheoryM>(s).1, no_item_here::<TheoryM>(t).1, exact),
        no_item_here::<TheoryM>(s).1.st.input_aliases == s.st.input_aliases,
{
    reveal(twin);
}

#[verifier::spinoff_prover]
proof fn lemma_twin_theory(s: PS, t: PS, exact: bool)
    requires
        twin(s, t, exact),
        s.place.is_diff == t.place.is_diff,
        placed_alike(s, t, theory_entries(s)),
    ensures
        match (theory(s).0, theory(t).0) {
            (Ok(x), Ok(y)) => same_theory(x, y, exact),
            (Err(e), Err(f)) => e == f,
            _ => false,
        },
        twin(theory(s).1, theory(t).1, exact),
        theory(s).1.st.input_aliases == s.st.input_aliases + theory_entries(s),
{
    reveal(theory);
    assert(s.st.input_aliases + Seq::empty() =~= s.st.input_aliases);
    lemma_twin_tokens(s, t, Seq::empty(), exact);
    lemma_twin_tokens(s.ws(), t.ws(), "theory"@, exact);
    lemma_own_tokens(s.ws(), "theory"@);
    lemma_own_tokens(t.ws(), "theory"@);
    let (a, s1) = s.ws().need_kw("theory"@);
    let t1 = t.ws().need_kw("theory"@).1;
    if a is Ok {
        lemma_twin_tokens(s1, t1, Seq::empty(), exact);
        lemma_own_tokens(s1, Seq::empty());
        lemma_own_tokens(t1, Seq::empty());
        let (b, s2) = s1.ident();
        let t2 = t1.ident().1;
        if b is Ok {
            lemma_twin_configuration(s2, t2, exact);
            lemma_own_configuration(t2);
            let (c, s3) = configuration(s2);
            let t3 = configuration(t2).1;
            if c is Ok {
                lemma_twin_items(s3, t3, Seq::empty(), Seq::empty(), exact);
                lemma_entries(s3, Seq::empty());
                let s4 = items(s3, Seq::empty()).1;
                let t4 = items(t3, Seq::empty()).1;
                lemma_twin_tokens(s4, t4, "end"@, exact);
                lemma_twin_stop(s4, t4, exact);
            }
        }
    }
}

proof fn lemma_own_configuration(s: PS)
    ensures
        configuration(s).1.place == s.place,
{
    assert(twin(s, s, true)) by {
        reveal(twin);
    }
    lemma_twin_configuration(s, s, true);
}

/// The inputs that the readings of a text up to `k` or later bring, all of
/// those that are made.
pub open spec fn tried_entries(s: PS, k: int) -> Seq<InputAliasM>
    decreases s.src.len() + 1 - k,
{
    if k > s.src.len() {
        theory_entries(s)
    } else if !closing(s.src, k) {
        tried_entries(s, k + 1)
    } else if settled(theory(cut(s, k))) {
        theory_entries(cut(s, k))
    } else {
        theory_entries(cut(s, k)) + tried_entries(s, k + 1)
    }
}

/// The inputs that the reading of a text up to `k` or later brings.
pub open spec fn read_entries(s: PS, k: int) -> Seq<InputAliasM>
    decreases s.src.len() + 1 - k,
{
    if k > s.src.len() {
        theory_entries(s)
    } else if closing(s.src, k) && settled(theory(cut(s, k))) {
        theory_entries(cut(s, k))
    } else {
        read_entries(s, k + 1)
    }
}

#[verifier::spinoff_prover]
proof fn lemma_twin_cut(s: PS, t: PS, k: int, exact: bool)
    requires
        twin(s, t, exact),
    ensures
        s.src == t.src,
        twin(cut(s, k), cut(t, k), exact),
{
    reveal(twin);
    let (a, b) = (bare(s), bare(t));
    assert(s.src == a.src && s.at == a.at && s.sig == a.sig && s.mode == a.mode && s.h == a.h);
    assert(t.src == b.src && t.at == b.at && t.sig == b.sig && t.mode == b.mode && t.h == b.h);
    assert(s.st.flags == a.st.flags && s.st.seen == a.st.seen);
    assert(t.st.flags == b.st.flags && t.st.seen == b.st.seen);
    assert(s.place.is_diff == a.place.is_diff && t.place.is_diff == b.place.is_diff);
}

proof fn lemma_twin_wanted(s: PS, t: PS, exact: bool)
    requires
        twin(s, t, exact),
    ensures
        s.st.wanted == t.st.wanted,
{
    reveal(twin);
}

#[verifier::spinoff_prover]
proof fn lemma_twin_read(s: PS, t: PS, k: int, exact: bool)
    requires
        0 <= k,
        twin(s, t, exact),
        s.place.is_diff == t.place.is_diff,
        placed_alike(s, t, tried_entries(s, k)),
    ensures
        match (read_from(s, k).0, read_from(t, k).0) {
            (Ok(x), Ok(y)) => same_theory(x, y, exact),
            (Err(e), Err(f)) => e == f,
            _ => false,
        },
        twin(read_from(s, k).1, read_from(t, k).1, exact),
        read_from(s, k).1.st.input_aliases == s.st.input_aliases + read_entries(s, k),
    decreases s.src.len() + 1 - k,
{
    lemma_twin_cut(s, t, k, exact);
    if k > s.src.len() {
        lemma_twin_theory(s, t, exact);
        let s1 = theory(s).1;
        let t1 = theory(t).1;
        lemma_twin_tokens(s1, t1, "no `end` closes the theory"@, exact);
    } else if !closing(s.src, k) {
        lemma_twin_read(s, t, k + 1, exact);
    } else {
        let a = cut(s, k);
        let b = cut(t, k);
        lemma_twin_theory(a, b, exact);
        lemma_twin_wanted(theory(a).1, theory(b).1, exact);
        if !settled(theory(a)) {
            lemma_twin_read(s, t, k + 1, exact);
        }
    }
}

/// A text is read the same in every directory where no `#include` is live.
pub proof fn law_the_directory_serves_includes_only(
    src: Seq<char>,
    flags: Seq<Seq<char>>,
    is_diff: bool,
    files: Seq<SourceFileM>,
    here: Option<Seq<char>>,
    there: Option<Seq<char>>,
)
    requires
        tried_entries(start_in(src, flags, is_diff, here, files), 0).len() == 0,
    ensures
        ({
            let (a, s) = read(start_in(src, flags, is_diff, here, files));
            let (b, t) = read(start_in(src, flags, is_diff, there, files));
            reading(a, s.st) == reading(b, t.st)
        }),
{
    let s = start_in(src, flags, is_diff, here, files);
    let t = start_in(src, flags, is_diff, there, files);
    assert(twin(s, t, true)) by {
        reveal(twin);
    }
    lemma_twin_read(s, t, 0, true);
    reveal(twin);
    reveal(alike);
}

/// The theory in a file, read with the list of its inputs, is the theory that
/// is read from its text in the directory of the file, but for the files that
/// its items are recorded to be from; so are the error and the file that is
/// asked for. The inputs are that file, and then one for each live `#include`,
/// in the order in which they are met.
pub proof fn law_the_manifest_lists_what_is_read(
    src: Seq<char>,
    flags: Seq<Seq<char>>,
    is_diff: bool,
    root: Seq<char>,
    files: Seq<SourceFileM>,
)
    ensures
        ({
            let s = start_of(src, flags, is_diff, root, files);
            let t = start_in(src, flags, is_diff, parent_of(root), files);
            &&& match (read(s).0, read(t).0) {
                (Ok(x), Ok(y)) => same_theory(x, y, false),
                (Err(e), Err(f)) => e == f,
                _ => false,
            }
            &&& read(s).1.st.wanted == read(t).1.st.wanted
            &&& read(s).1.st.input_aliases == seq![
                InputAliasM { physical: root, staged: file_name_of(root) },
            ] + read_entries(s, 0)
        }),
{
    let s = start_of(src, flags, is_diff, root, files);
    let t = start_in(src, flags, is_diff, parent_of(root), files);
    assert(twin(s, t, false)) by {
        reveal(twin);
    }
    lemma_twin_read(s, t, 0, false);
    reveal(twin);
}

} // verus!
