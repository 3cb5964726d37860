//! Stored proofs.

use crate::ast::{MethodM, ProofMethod, ProofSkeleton, ProofTree, ProofTreeM, SkeletonM};
use crate::basics::{dashed_word, initial};
use crate::error::{body_text, outcome, ErrorM, Message, MessageM, ParseError};
use crate::goals::parens_goal;
use crate::lexer::{Pos, MAX_CHARS};
use crate::model::{no_items, one_item, put};
use crate::signature::copy_syms;
use crate::state::{group_steps, step, Parser, SigM, SigState, Step, PS};
use crate::text::{chars_of, ident_char, is_ident_char, same, string_of, utf8_width};
use crate::tokens::{alpha_end, col_at, line_at, offset_at, word_at};
use crate::values::copy_texts;
use vstd::prelude::*;

verus! {

broadcast use {group_steps, crate::tokens::group_lexer, crate::ast::group_models};

/// The words that start an item of a theory and end a stored proof before it.
pub open spec fn stop_words() -> Seq<Seq<char>> {
    seq![
        "end"@,
        "rule"@,
        "lemma"@,
        "diffLemma"@,
        "restriction"@,
        "axiom"@,
        "tactic"@,
        "heuristic"@,
        "predicates"@,
        "predicate"@,
        "macros"@,
        "macro"@,
        "functions"@,
        "function"@,
        "equations"@,
        "builtins"@,
        "options"@,
        "process"@,
        "test"@,
        "equivLemma"@,
        "diffEquivLemma"@,
        "export"@,
    ]
}

/// The directives that end a stored proof before them.
pub open spec fn stop_directives() -> Seq<Seq<char>> {
    seq!["ifdef"@, "endif"@, "else"@, "define"@, "include"@]
}

/// Whether the text stops at `s`.
#[verifier::opaque]
pub open spec fn stops(s: PS) -> bool {
    ||| (dashed_word(s) is Some && stop_words().contains(dashed_word(s)->0))
    ||| (s.peek() == Some('#') && stop_directives().contains(
        s.src.subrange(s.at + 1, alpha_end(s.src, s.at + 1)),
    ))
}

/// Where the text of a proof ends that goes on at `s`. `word` says that `s`
/// is inside a word, `depth` counts open parentheses, and `label` says that
/// the next word is the name of a case.
pub open spec fn text_end(s: PS, word: bool, depth: int, label: bool) -> int
    decreases s.rem(),
{
    let w = s.ws();
    let inside = word && w.at == s.at;
    let here = depth == 0 && !inside;
    if w.peek() is None {
        w.at
    } else if here && !label && stops(w) {
        w.at
    } else {
        let c = w.peek()->0;
        text_end(
            w.bump(),
            ident_char(c) || c == '-',
            if c == '(' {
                depth + 1
            } else if c == ')' && depth > 0 {
                depth - 1
            } else {
                depth
            },
            if here {
                !label && dashed_word(w) == Some("case"@)
            } else {
                label
            },
        )
    }
}

/// The text of a proof at `s`.
#[verifier::opaque]
pub open spec fn proof_text(s: PS) -> (Seq<char>, PS) {
    let e = text_end(s, false, 0, false);
    (s.src.subrange(s.at, e), s.to(e))
}

/// The start of a text that is read under the signature `sig`.
#[verifier::opaque]
pub open spec fn nested(text: Seq<char>, sig: SigM) -> PS {
    PS {
        sig: SigM { reserved_builtin_names: Seq::empty(), ..sig },
        ..initial(text, Seq::empty(), false)
    }
}

/// A method of a proof.
#[verifier::opaque]
pub open spec fn method(s: PS) -> Step<MethodM> {
    let (sorry, s1) = s.kw("sorry"@);
    let (simplify, s2) = s.kw("simplify"@);
    let (solve, s3) = s.kw("solve"@);
    let (contradiction, s4) = s.kw("contradiction"@);
    let (induction, s5) = s.kw("induction"@);
    let (invalidated, s6) = s.kw("INVALIDATED"@);
    let (unfinishable, s7) = s.kw("UNFINISHABLE"@);
    if sorry {
        (Ok(MethodM::Sorry), s1)
    } else if simplify {
        (Ok(MethodM::Simplify), s2)
    } else if solve {
        match parens_goal(s3) {
            (Err(e), t) => (Err(e), t),
            (Ok(g), t) => (Ok(MethodM::Solve(g)), t),
        }
    } else if contradiction {
        (Ok(MethodM::Contradiction), s4)
    } else if induction {
        (Ok(MethodM::Induction), s5)
    } else if invalidated {
        (Ok(MethodM::Invalidated), s6)
    } else if unfinishable {
        (Ok(MethodM::Unfinishable), s7)
    } else {
        s.fail_msg("expected a proof method"@)
    }
}

/// The name of a case: any word.
#[verifier::opaque]
pub open spec fn case_name(s: PS) -> Step<Seq<char>> {
    match word_at(s.src, s.at) {
        Some((b, e)) => (Ok(s.src.subrange(b, e)), s.to(e).ws()),
        None => s.fail_msg("expected the name of a case"@),
    }
}

#[verifier::opaque]
pub open spec fn leaf(m: MethodM) -> ProofTreeM {
    ProofTreeM { method: m, case_names: Seq::empty(), cases: Seq::empty() }
}

#[verifier::opaque]
pub open spec fn only_child(m: MethodM, t: ProofTreeM) -> ProofTreeM {
    ProofTreeM { method: m, case_names: seq![Seq::empty()], cases: seq![t] }
}

#[verifier::opaque]
pub open spec fn with_cases(
    m: MethodM,
    names: Seq<Seq<char>>,
    ts: Seq<ProofTreeM>,
) -> ProofTreeM {
    ProofTreeM { method: m, case_names: names, cases: ts }
}

/// A proof: `SOLVED`, a final method behind `by`, or a method and the proofs
/// of its cases.
pub open spec fn proof_tree(s: PS) -> Step<ProofTreeM>
    decreases s.rem(), 1int,
{
    let (solved, s1) = s.kw("SOLVED"@);
    let (by_word, s2) = s.kw("by"@);
    if solved {
        (Ok(leaf(MethodM::Solved)), s1)
    } else if by_word {
        match method(s2) {
            (Err(e), t) => (Err(e), t),
            (Ok(m), t) => (Ok(leaf(m)), t),
        }
    } else {
        match method(s) {
            (Err(e), t) => (Err(e), t),
            (Ok(m), t) => if s.fwd(t) && s.at < t.at {
                below(t, m)
            } else {
                (Err(s.err(Seq::empty())), s)
            },
        }
    }
}

/// What stands below a method: cases up to `qed`, or one proof.
pub open spec fn below(s: PS, m: MethodM) -> Step<ProofTreeM>
    decreases s.rem(), 2int,
{
    let (qed, s1) = s.kw("qed"@);
    if s.at_kw("case"@) {
        case_list(s, m, Seq::empty(), Seq::empty())
    } else if qed {
        (Ok(with_cases(m, Seq::empty(), Seq::empty())), s1)
    } else {
        match proof_tree(s) {
            (Err(e), t) => (Err(e), t),
            (Ok(p), t) => (Ok(only_child(m, p)), t),
        }
    }
}

/// The cases behind those that were read.
pub open spec fn case_list(
    s: PS,
    m: MethodM,
    names: Seq<Seq<char>>,
    ts: Seq<ProofTreeM>,
) -> Step<ProofTreeM>
    decreases s.rem(), 0int,
{
    match s.need_kw("case"@) {
        (Err(e), s1) => (Err(e), s1),
        (Ok(_), s1) => match step(s1, case_name(s1)) {
            (Err(e), s2) => (Err(e), s2),
            (Ok(n), s2) => match step(s2, proof_tree(s2)) {
                (Err(e), s3) => (Err(e), s3),
                (Ok(t), s3) => {
                    let (next, s4) = s3.kw("next"@);
                    if next {
                        case_list(s4, m, names.push(n), ts.push(t))
                    } else {
                        match s3.need_kw("qed"@) {
                            (Err(e), s5) => (Err(e), s5),
                            (Ok(_), s5) => (Ok(with_cases(m, names.push(n), ts.push(t))), s5),
                        }
                    }
                },
            },
        },
    }
}

/// Steps over a method of a diff proof.
#[verifier::opaque]
pub open spec fn diff_method(s: PS) -> Step<()> {
    let (a, s1) = s.kw("sorry"@);
    let (b, s2) = s.kw("rule-equivalence"@);
    let (c, s3) = s.kw("backward-search"@);
    let (d, s4) = s.kw("step"@);
    let (e, s5) = s.kw("ATTACK"@);
    let (f, s6) = s.kw("UNFINISHABLEdiff"@);
    if a {
        (Ok(()), s1)
    } else if b {
        (Ok(()), s2)
    } else if c {
        (Ok(()), s3)
    } else if d {
        match s4.need("("@) {
            (Err(x), t) => (Err(x), t),
            (Ok(_), t) => match method(t) {
                (Err(x), u) => (Err(x), u),
                (Ok(_), u) => u.need(")"@),
            },
        }
    } else if e {
        (Ok(()), s5)
    } else if f {
        (Ok(()), s6)
    } else {
        s.fail_msg("expected a proof method"@)
    }
}

/// Steps over a diff proof.
pub open spec fn diff_proof(s: PS) -> Step<()>
    decreases s.rem(), 1int,
{
    let (mirrored, s1) = s.kw("MIRRORED"@);
    let (by_word, s2) = s.kw("by"@);
    if mirrored {
        (Ok(()), s1)
    } else if by_word {
        diff_method(s2)
    } else {
        match diff_method(s) {
            (Err(e), t) => (Err(e), t),
            (Ok(_), t) => if s.fwd(t) && s.at < t.at {
                diff_below(t)
            } else {
                (Err(s.err(Seq::empty())), s)
            },
        }
    }
}

pub open spec fn diff_below(s: PS) -> Step<()>
    decreases s.rem(), 2int,
{
    let (qed, s1) = s.kw("qed"@);
    if s.at_kw("case"@) {
        diff_cases(s)
    } else if qed {
        (Ok(()), s1)
    } else {
        diff_proof(s)
    }
}

pub open spec fn diff_cases(s: PS) -> Step<()>
    decreases s.rem(), 0int,
{
    match s.need_kw("case"@) {
        (Err(e), s1) => (Err(e), s1),
        (Ok(_), s1) => match step(s1, case_name(s1)) {
            (Err(e), s2) => (Err(e), s2),
            (Ok(_), s2) => match step(s2, diff_proof(s2)) {
                (Err(e), s3) => (Err(e), s3),
                (Ok(_), s3) => {
                    let (next, s4) = s3.kw("next"@);
                    if next {
                        diff_cases(s4)
                    } else {
                        s3.need_kw("qed"@)
                    }
                },
            },
        },
    }
}

/// The result `r` of reading all of a text.
pub open spec fn whole<T>(r: Step<T>) -> Result<T, ErrorM> {
    match r {
        (Err(e), _) => Err(e),
        (Ok(t), s) => if s.ws().eof() {
            Ok(t)
        } else {
            Err(s.ws().err("unexpected trailing proof text"@))
        },
    }
}

/// Bytes before the position of `text` that has this line and column, counted
/// on from position `i`; all of them where there is none.
pub open spec fn offset_of(text: Seq<char>, line: int, col: int, i: int) -> int
    decreases text.len() - i,
{
    if i < 0 || i >= text.len() || (line_at(text, i) == line && col_at(text, i) == col) {
        offset_at(text, i)
    } else {
        offset_of(text, line, col, i + 1)
    }
}

/// Line or column `n` of a text that starts in line or column `start`, as far
/// as 32 bits hold it.
pub open spec fn shifted(start: int, n: int) -> int {
    let m = start + (if n > 0 {
        n - 1
    } else {
        0
    });
    if m > u32::MAX {
        u32::MAX as int
    } else {
        m
    }
}

/// Offsets in a part of a text count on from where it starts.
pub proof fn lemma_part_offset(src: Seq<char>, from: int, to: int, j: int)
    requires
        0 <= from <= to <= src.len(),
        0 <= j <= to - from,
    ensures
        offset_at(src, from) + offset_at(src.subrange(from, to), j) == offset_at(src, from + j),
    decreases j,
{
    if j > 0 {
        lemma_part_offset(src, from, to, j - 1);
        assert(src.subrange(from, to)[j - 1] == src[from + j - 1]);
    }
}

/// [`offset_of`] counts a position of the text.
pub proof fn lemma_offset_of(text: Seq<char>, line: int, col: int, i: int) -> (j: int)
    requires
        0 <= i <= text.len(),
    ensures
        i <= j <= text.len(),
        offset_of(text, line, col, i) == offset_at(text, j),
    decreases text.len() - i,
{
    if i >= text.len() || (line_at(text, i) == line && col_at(text, i) == col) {
        i
    } else {
        lemma_offset_of(text, line, col, i + 1)
    }
}

/// The error `e` of a text that stands at `s`, as an error there.
#[verifier::opaque]
pub open spec fn placed(s: PS, text: Seq<char>, e: ErrorM) -> ErrorM {
    ErrorM {
        line: shifted(line_at(s.src, s.at), e.line),
        col: if e.line == 1 {
            shifted(col_at(s.src, s.at), e.col)
        } else {
            e.col
        },
        offset: offset_at(s.src, s.at) + offset_of(text, e.line, e.col, 0),
        source: Seq::empty(),
        messages: seq![MessageM::Message(body_text(e.messages))],
        ghc: None,
    }
}

/// Later positions have a later line, or a later column in the same line.
pub proof fn law_positions_differ(src: Seq<char>, i: int, j: int)
    requires
        0 <= i < j,
    ensures
        line_at(src, i) < line_at(src, j) || (line_at(src, i) == line_at(src, j) && col_at(src, i)
            < col_at(src, j)),
    decreases j,
{
    if i < j - 1 {
        law_positions_differ(src, i, j - 1);
    }
    crate::tokens::lemma_position_bounds(src, i);
    crate::tokens::lemma_position_bounds(src, j);
}

proof fn lemma_found_position(text: Seq<char>, i: int, j: int)
    requires
        0 <= i <= j <= text.len(),
    ensures
        offset_of(text, line_at(text, j), col_at(text, j), i) == offset_at(text, j),
    decreases j - i,
{
    if i < j {
        law_positions_differ(text, i, j);
        lemma_found_position(text, i + 1, j);
    }
}

proof fn lemma_part_position(src: Seq<char>, from: int, to: int, j: int)
    requires
        0 <= from <= to <= src.len(),
        0 <= j <= to - from,
    ensures
        line_at(src, from + j) == line_at(src, from) + line_at(src.subrange(from, to), j) - 1,
        col_at(src, from + j) == (if line_at(src.subrange(from, to), j) == 1 {
            col_at(src, from) + col_at(src.subrange(from, to), j) - 1
        } else {
            col_at(src.subrange(from, to), j)
        }),
    decreases j,
{
    let part = src.subrange(from, to);
    crate::tokens::lemma_position_bounds(part, j);
    if j > 0 {
        lemma_part_position(src, from, to, j - 1);
        crate::tokens::lemma_position_bounds(part, j - 1);
        assert(part[j - 1] == src[from + j - 1]);
    }
}

/// An error in a part of a theory, such as a stored proof, is shown at the
/// line, the column and the byte of the theory where it is.
pub proof fn law_errors_in_a_part_are_placed(s: PS, to: int, j: int, e: ErrorM)
    requires
        0 <= s.at <= to <= s.src.len(),
        s.src.len() < u32::MAX,
        0 <= j <= to - s.at,
        e.line == line_at(s.src.subrange(s.at, to), j),
        e.col == col_at(s.src.subrange(s.at, to), j),
    ensures
        ({
            let p = placed(s, s.src.subrange(s.at, to), e);
            &&& p.line == line_at(s.src, s.at + j)
            &&& p.col == col_at(s.src, s.at + j)
            &&& p.offset == offset_at(s.src, s.at + j)
        }),
{
    reveal(placed);
    let text = s.src.subrange(s.at, to);
    lemma_found_position(text, 0, j);
    lemma_part_offset(s.src, s.at, to, j);
    lemma_part_position(s.src, s.at, to, j);
    crate::tokens::lemma_position_bounds(s.src, s.at + j);
    crate::tokens::lemma_position_bounds(text, j);
}

/// The words that a stored proof starts with.
pub open spec fn proof_starters() -> Seq<Seq<char>> {
    seq![
        "sorry"@,
        "simplify"@,
        "solve"@,
        "contradiction"@,
        "induction"@,
        "INVALIDATED"@,
        "UNFINISHABLE"@,
        "by"@,
        "SOLVED"@,
    ]
}

/// The words that a stored diff proof starts with.
pub open spec fn diff_proof_starters() -> Seq<Seq<char>> {
    seq![
        "sorry"@,
        "rule-equivalence"@,
        "backward-search"@,
        "step"@,
        "ATTACK"@,
        "UNFINISHABLEdiff"@,
        "by"@,
        "MIRRORED"@,
    ]
}

/// The proof of a lemma, if one is stored.
#[verifier::opaque]
pub open spec fn skeleton(s: PS) -> Step<Option<SkeletonM>> {
    let w = s.ws();
    if dashed_word(w) is Some && proof_starters().contains(dashed_word(w)->0) {
        let (raw, s1) = proof_text(w);
        match whole(proof_tree(nested(raw, s.sig))) {
            Ok(t) => (Ok(Some(SkeletonM { raw, tree: Some(t) })), s1),
            Err(e) => (Err(placed(w, raw, e)), s1),
        }
    } else {
        (Ok(None), w)
    }
}

/// The proof of a diff lemma, if one is stored. It is held as text.
#[verifier::opaque]
pub open spec fn diff_skeleton(s: PS) -> Step<Option<SkeletonM>> {
    let w = s.ws();
    if dashed_word(w) is Some && diff_proof_starters().contains(dashed_word(w)->0) {
        let (raw, s1) = proof_text(w);
        match whole(diff_proof(nested(raw, s.sig))) {
            Ok(_) => (Ok(Some(SkeletonM { raw, tree: None })), s1),
            Err(e) => (Err(placed(w, raw, e)), s1),
        }
    } else {
        (Ok(None), w)
    }
}

fn stop_word(w: &str) -> (r: bool)
    ensures
        r == stop_words().contains(w@),
{
    let r = same(w, "end") || same(w, "rule") || same(w, "lemma") || same(w, "diffLemma") || same(
        w,
        "restriction",
    ) || same(w, "axiom") || same(w, "tactic") || same(w, "heuristic") || same(w, "predicates")
        || same(w, "predicate") || same(w, "macros") || same(w, "macro") || same(w, "functions")
        || same(w, "function") || same(w, "equations") || same(w, "builtins") || same(w, "options")
        || same(w, "process") || same(w, "test") || same(w, "equivLemma") || same(
        w,
        "diffEquivLemma",
    ) || same(w, "export");
    proof {
        let s = stop_words();
        assert(s[0] == "end"@ && s[1] == "rule"@ && s[2] == "lemma"@ && s[3] == "diffLemma"@ && s[4]
            == "restriction"@ && s[5] == "axiom"@ && s[6] == "tactic"@ && s[7] == "heuristic"@
            && s[8] == "predicates"@ && s[9] == "predicate"@ && s[10] == "macros"@ && s[11]
            == "macro"@ && s[12] == "functions"@ && s[13] == "function"@ && s[14] == "equations"@
            && s[15] == "builtins"@ && s[16] == "options"@ && s[17] == "process"@ && s[18]
            == "test"@ && s[19] == "equivLemma"@ && s[20] == "diffEquivLemma"@ && s[21]
            == "export"@);
    }
    r
}

fn stop_directive(w: &str) -> (r: bool)
    ensures
        r == stop_directives().contains(w@),
{
    let r = same(w, "ifdef") || same(w, "endif") || same(w, "else") || same(w, "define") || same(
        w,
        "include",
    );
    proof {
        let s = stop_directives();
        assert(s[0] == "ifdef"@ && s[1] == "endif"@ && s[2] == "else"@ && s[3] == "define"@ && s[4]
            == "include"@);
    }
    r
}

fn starts_proof(w: &str) -> (r: bool)
    ensures
        r == proof_starters().contains(w@),
{
    let r = same(w, "sorry") || same(w, "simplify") || same(w, "solve") || same(w, "contradiction")
        || same(w, "induction") || same(w, "INVALIDATED") || same(w, "UNFINISHABLE") || same(
        w,
        "by",
    ) || same(w, "SOLVED");
    proof {
        let s = proof_starters();
        assert(s[0] == "sorry"@ && s[1] == "simplify"@ && s[2] == "solve"@ && s[3]
            == "contradiction"@ && s[4] == "induction"@ && s[5] == "INVALIDATED"@ && s[6]
            == "UNFINISHABLE"@ && s[7] == "by"@ && s[8] == "SOLVED"@);
    }
    r
}

fn starts_diff_proof(w: &str) -> (r: bool)
    ensures
        r == diff_proof_starters().contains(w@),
{
    let r = same(w, "sorry") || same(w, "rule-equivalence") || same(w, "backward-search") || same(
        w,
        "step",
    ) || same(w, "ATTACK") || same(w, "UNFINISHABLEdiff") || same(w, "by") || same(w, "MIRRORED");
    proof {
        let s = diff_proof_starters();
        assert(s[0] == "sorry"@ && s[1] == "rule-equivalence"@ && s[2] == "backward-search"@ && s[3]
            == "step"@ && s[4] == "ATTACK"@ && s[5] == "UNFINISHABLEdiff"@ && s[6] == "by"@ && s[7]
            == "MIRRORED"@);
    }
    r
}

/// Bytes before the position of `text` that has this line and column.
pub fn offset_at_line_col(text: &Vec<char>, line: u32, col: u32) -> (r: usize)
    requires
        text@.len() <= MAX_CHARS,
    ensures
        r == offset_of(text@, line as int, col as int, 0),
{
    let mut i: usize = 0;
    let mut offset: usize = 0;
    let mut at_line: u32 = 1;
    let mut at_col: u32 = 1;
    while i < text.len()
        invariant
            i <= text@.len() <= MAX_CHARS,
            offset == offset_at(text@, i as int),
            at_line == line_at(text@, i as int),
            at_col == col_at(text@, i as int),
            offset_of(text@, line as int, col as int, i as int) == offset_of(
                text@,
                line as int,
                col as int,
                0,
            ),
        decreases text@.len() - i,
    {
        if at_line == line && at_col == col {
            return offset;
        }
        proof {
            crate::tokens::lemma_position_bounds(text@, i + 1);
        }
        let c = text[i];
        offset = offset + utf8_width(c);
        if c == '\n' {
            at_line = at_line + 1;
            at_col = 1;
        } else {
            at_col = at_col + 1;
        }
        i = i + 1;
    }
    offset
}

impl SigState {
    /// The symbols, without the names that builtins reserve.
    pub fn copy_symbols(&self) -> (r: SigState)
        ensures
            r.deep_view() == (SigM {
                reserved_builtin_names: Seq::empty(),
                ..self.deep_view()
            }),
    {
        SigState {
            fun_syms: copy_syms(&self.fun_syms),
            ac_fun_syms: copy_texts(&self.ac_fun_syms),
            macro_syms: copy_syms(&self.macro_syms),
            reserved_builtin_names: no_items::<String>(),
            enable_dh: self.enable_dh,
            enable_bp: self.enable_bp,
            enable_xor: self.enable_xor,
            enable_mset: self.enable_mset,
            enable_nat: self.enable_nat,
            enable_diff: self.enable_diff,
        }
    }
}

impl Parser {
    /// The start of a text that is read under the signature of this parse.
    pub fn nested_parser(&self, text: Vec<char>) -> (p: Parser)
        requires
            text@.len() <= MAX_CHARS,
        ensures
            p.wf(),
            p@ == nested(text@, self@.sig),
    {
        proof {
            reveal(nested);
        }
        let mut p = Parser::from_chars(text, no_items::<String>(), false);
        p.sig = self.sig.copy_symbols();
        p
    }

    fn stops_here(&mut self) -> (r: bool)
        requires
            old(self).wf(),
        ensures
            final(self).wf(),
            final(self)@ == old(self)@,
            r == stops(old(self)@),
    {
        proof {
            reveal(stops);
        }
        match self.peek_hyphen_identifier() {
            Some(id) => {
                if stop_word(&id) {
                    return true;
                }
            },
            None => {},
        }
        if self.peek() != Some('#') {
            return false;
        }
        let start = self.save();
        self.bump();
        let name = self.lx.ascii_alpha_run();
        self.restore(start);
        stop_directive(&name)
    }

    /// The text up to the next item.
    #[verifier::spinoff_prover]
    pub fn read_until_next_top_level(&mut self) -> (r: Vec<char>)
        requires
            old(self).wf(),
        ensures
            final(self).wf(),
            (r@, final(self)@) == proof_text(old(self)@),
            old(self)@.past(final(self)@),
            r@.len() <= MAX_CHARS,
    {
        proof {
            reveal(proof_text);
        }
        let start = self.save();
        let ghost e = text_end(self@, false, 0, false);
        let mut word = false;
        let mut depth: usize = 0;
        let mut label = false;
        loop
            invariant_except_break
                self.wf(),
                old(self)@.past(self@),
                depth <= self@.at,
                text_end(self@, word, depth as int, label) == e,
            ensures
                self.wf(),
                old(self)@.past(self@),
                self@.at == e,
            decreases self@.rem(),
        {
            let before = self.save();
            self.skip_ws();
            let inside = word && self.save().at == before.at;
            let here = depth == 0 && !inside;
            let c = match self.peek() {
                Some(c) => c,
                None => {
                    break;
                },
            };
            if here {
                if label {
                    label = false;
                } else {
                    if self.stops_here() {
                        break;
                    }
                    label = match self.peek_hyphen_identifier() {
                        Some(id) => same(&id, "case"),
                        None => false,
                    };
                }
            }
            word = is_ident_char(c) || c == '-';
            if c == '(' {
                depth = depth + 1;
            } else if c == ')' && depth > 0 {
                depth = depth - 1;
            }
            self.bump();
        }
        let mut v: Vec<char> = Vec::new();
        let end: usize = self.save().at;
        let mut i: usize = start.at;
        while i < end
            invariant
                self.wf(),
                start.at <= i <= end,
                end == self@.at,
                self@.at <= self@.src.len(),
                v@ == self@.src.subrange(start.at as int, i as int),
            decreases end - i,
        {
            v.push(self.lx.src[i]);
            i = i + 1;
            assert(v@ =~= self@.src.subrange(start.at as int, i as int));
        }
        v
    }

    #[verifier::spinoff_prover]
    fn proof_method(&mut self) -> (r: Result<ProofMethod, ParseError>)
        requires
            old(self).wf(),
        ensures
            final(self).wf(),
            (outcome(r), final(self)@) == method(old(self)@),
            old(self)@.fwd(final(self)@),
            r is Ok ==> old(self)@.at < final(self)@.at,
    {
        proof {
            reveal(method);
        }
        if self.try_kw("sorry") {
            return Ok(ProofMethod::Sorry);
        }
        if self.try_kw("simplify") {
            return Ok(ProofMethod::Simplify);
        }
        if self.try_kw("solve") {
            let g = self.parens_goal()?;
            return Ok(ProofMethod::Solve(g));
        }
        if self.try_kw("contradiction") {
            return Ok(ProofMethod::Contradiction);
        }
        if self.try_kw("induction") {
            return Ok(ProofMethod::Induction);
        }
        if self.try_kw("INVALIDATED") {
            return Ok(ProofMethod::Invalidated);
        }
        if self.try_kw("UNFINISHABLE") {
            return Ok(ProofMethod::Unfinishable);
        }
        Err(self.err_fail("expected a proof method"))
    }

    fn case_label(&mut self) -> (r: Result<String, ParseError>)
        requires
            old(self).wf(),
        ensures
            final(self).wf(),
            (outcome(r), final(self)@) == case_name(old(self)@),
            old(self)@.past(final(self)@),
            r is Ok ==> old(self)@.at < final(self)@.at,
    {
        proof {
            reveal(case_name);
        }
        match self.lx.word() {
            Some((b, e)) => {
                let name = string_of(&self.lx.src, b.at, e.at);
                self.restore(e);
                self.skip_ws();
                Ok(name)
            },
            None => Err(self.err_fail("expected the name of a case")),
        }
    }

    #[verifier::spinoff_prover]
    fn proof_skeleton(&mut self) -> (r: Result<ProofTree, ParseError>)
        requires
            old(self).wf(),
        ensures
            final(self).wf(),
            (outcome(r), final(self)@) == proof_tree(old(self)@),
            old(self)@.fwd(final(self)@),
        decreases old(self)@.rem(), 1int,
    {
        if self.try_kw("SOLVED") {
            return Ok(leaf_proof(ProofMethod::Solved));
        }
        if self.try_kw("by") {
            let m = self.proof_method()?;
            return Ok(leaf_proof(m));
        }
        let m = self.proof_method()?;
        self.proof_below(m)
    }

    #[verifier::spinoff_prover]
    fn proof_below(&mut self, m: ProofMethod) -> (r: Result<ProofTree, ParseError>)
        requires
            old(self).wf(),
        ensures
            final(self).wf(),
            (outcome(r), final(self)@) == below(old(self)@, m.deep_view()),
            old(self)@.fwd(final(self)@),
        decreases old(self)@.rem(), 2int,
    {
        if self.at_keyword("case") {
            return self.proof_cases(m);
        }
        if self.try_kw("qed") {
            return Ok(proof_of_cases(m, no_items::<String>(), no_items::<ProofTree>()));
        }
        let p = self.proof_skeleton()?;
        Ok(proof_of_child(m, p))
    }

    #[verifier::spinoff_prover]
    fn proof_cases(&mut self, m: ProofMethod) -> (r: Result<ProofTree, ParseError>)
        requires
            old(self).wf(),
        ensures
            final(self).wf(),
            (outcome(r), final(self)@) == case_list(
                old(self)@,
                m.deep_view(),
                Seq::empty(),
                Seq::empty(),
            ),
            old(self)@.fwd(final(self)@),
        decreases old(self)@.rem(), 0int,
    {
        let mut names = no_items::<String>();
        let mut cases = no_items::<ProofTree>();
        loop
            invariant
                self.wf(),
                old(self)@.fwd(self@),
                case_list(self@, m.deep_view(), names.deep_view(), cases.deep_view())
                    == case_list(old(self)@, m.deep_view(), Seq::empty(), Seq::empty()),
            decreases self@.rem(),
        {
            self.require_kw("case")?;
            let n = self.case_label()?;
            let t = self.proof_skeleton()?;
            put(&mut names, n);
            put(&mut cases, t);
            if !self.try_kw("next") {
                self.require_kw("qed")?;
                return Ok(proof_of_cases(m, names, cases));
            }
        }
    }

    #[verifier::spinoff_prover]
    fn diff_proof_method(&mut self) -> (r: Result<(), ParseError>)
        requires
            old(self).wf(),
        ensures
            final(self).wf(),
            (outcome(r), final(self)@) == diff_method(old(self)@),
            old(self)@.fwd(final(self)@),
            r is Ok ==> old(self)@.at < final(self)@.at,
    {
        proof {
            reveal(diff_method);
        }
        if self.try_kw("sorry") || self.try_kw("rule-equivalence") || self.try_kw(
            "backward-search",
        ) {
            return Ok(());
        }
        if self.try_kw("step") {
            self.require_punct("(")?;
            self.proof_method()?;
            return self.require_punct(")");
        }
        if self.try_kw("ATTACK") || self.try_kw("UNFINISHABLEdiff") {
            return Ok(());
        }
        Err(self.err_fail("expected a proof method"))
    }

    #[verifier::spinoff_prover]
    fn diff_proof_skeleton(&mut self) -> (r: Result<(), ParseError>)
        requires
            old(self).wf(),
        ensures
            final(self).wf(),
            (outcome(r), final(self)@) == diff_proof(old(self)@),
            old(self)@.fwd(final(self)@),
        decreases old(self)@.rem(), 1int,
    {
        if self.try_kw("MIRRORED") {
            return Ok(());
        }
        if self.try_kw("by") {
            return self.diff_proof_method();
        }
        self.diff_proof_method()?;
        self.diff_proof_below()
    }

    #[verifier::spinoff_prover]
    fn diff_proof_below(&mut self) -> (r: Result<(), ParseError>)
        requires
            old(self).wf(),
        ensures
            final(self).wf(),
            (outcome(r), final(self)@) == diff_below(old(self)@),
            old(self)@.fwd(final(self)@),
        decreases old(self)@.rem(), 2int,
    {
        if self.at_keyword("case") {
            return self.diff_proof_cases();
        }
        if self.try_kw("qed") {
            return Ok(());
        }
        self.diff_proof_skeleton()
    }

    #[verifier::spinoff_prover]
    fn diff_proof_cases(&mut self) -> (r: Result<(), ParseError>)
        requires
            old(self).wf(),
        ensures
            final(self).wf(),
            (outcome(r), final(self)@) == diff_cases(old(self)@),
            old(self)@.fwd(final(self)@),
        decreases old(self)@.rem(), 0int,
    {
        loop
            invariant
                self.wf(),
                old(self)@.fwd(self@),
                diff_cases(self@) == diff_cases(old(self)@),
            decreases self@.rem(),
        {
            self.require_kw("case")?;
            self.case_label()?;
            self.diff_proof_skeleton()?;
            if !self.try_kw("next") {
                return self.require_kw("qed");
            }
        }
    }

    /// The error `e` of the text at `from`, as an error there.
    fn placed_error(&self, from: Pos, text: &Vec<char>, e: ParseError) -> (r: ParseError)
        requires
            self.wf(),
            crate::lexer::position_of(self@.src, from),
            from.at <= self@.at,
            text@ == self@.src.subrange(from.at as int, self@.at),
        ensures
            r.deep_view() == placed(self@.to(from.at as int), text@, e.deep_view()),
    {
        proof {
            reveal(placed);
            let j = lemma_offset_of(text@, e.line as int, e.col as int, 0);
            lemma_part_offset(self@.src, from.at as int, self@.at, j);
            crate::tokens::lemma_position_bounds(self@.src, from.at + j);
        }
        let rel = offset_at_line_col(text, e.line, e.col);
        ParseError {
            line: from.line.saturating_add(e.line.saturating_sub(1)),
            col: if e.line == 1 {
                from.col.saturating_add(e.col.saturating_sub(1))
            } else {
                e.col
            },
            offset: from.offset + rel,
            source: String::new(),
            messages: one_item(Message::Message(e.show_error_messages())),
            ghc_error: None,
        }
    }

    /// The proof of a lemma, if one is stored.
    #[verifier::spinoff_prover]
    pub fn try_proof_skeleton(&mut self) -> (r: Result<Option<ProofSkeleton>, ParseError>)
        requires
            old(self).wf(),
        ensures
            final(self).wf(),
            (outcome(r), final(self)@) == skeleton(old(self)@),
            old(self)@.past(final(self)@),
    {
        proof {
            reveal(skeleton);
        }
        self.skip_ws();
        let starts = match self.peek_hyphen_identifier() {
            Some(id) => starts_proof(&id),
            None => false,
        };
        if !starts {
            return Ok(None);
        }
        let from = self.save();
        let raw = self.read_until_next_top_level();
        proof {
            reveal(proof_text);
        }
        let text = string_of(&raw, 0, raw.len());
        assert(text@ =~= raw@);
        let mut sub = self.nested_parser(chars_of(&text));
        match sub.whole_proof() {
            Ok(t) => Ok(Some(ProofSkeleton { raw: text, tree: Some(t) })),
            Err(e) => Err(self.placed_error(from, &raw, e)),
        }
    }

    /// The proof of a diff lemma, if one is stored.
    #[verifier::spinoff_prover]
    pub fn try_diff_proof_skeleton(&mut self) -> (r: Result<Option<ProofSkeleton>, ParseError>)
        requires
            old(self).wf(),
        ensures
            final(self).wf(),
            (outcome(r), final(self)@) == diff_skeleton(old(self)@),
            old(self)@.past(final(self)@),
    {
        proof {
            reveal(diff_skeleton);
        }
        self.skip_ws();
        let starts = match self.peek_hyphen_identifier() {
            Some(id) => starts_diff_proof(&id),
            None => false,
        };
        if !starts {
            return Ok(None);
        }
        let from = self.save();
        let raw = self.read_until_next_top_level();
        proof {
            reveal(proof_text);
        }
        let text = string_of(&raw, 0, raw.len());
        assert(text@ =~= raw@);
        let mut sub = self.nested_parser(chars_of(&text));
        match sub.whole_diff_proof() {
            Ok(_) => Ok(Some(ProofSkeleton { raw: text, tree: None })),
            Err(e) => Err(self.placed_error(from, &raw, e)),
        }
    }

    fn whole_diff_proof(&mut self) -> (r: Result<(), ParseError>)
        requires
            old(self).wf(),
        ensures
            final(self).wf(),
            outcome(r) == whole(diff_proof(old(self)@)),
    {
        self.diff_proof_skeleton()?;
        self.skip_ws();
        if !self.is_eof() {
            return Err(self.err("unexpected trailing proof text"));
        }
        Ok(())
    }

    /// A proof that takes up all of the text.
    fn whole_proof(&mut self) -> (r: Result<ProofTree, ParseError>)
        requires
            old(self).wf(),
        ensures
            final(self).wf(),
            outcome(r) == whole(proof_tree(old(self)@)),
    {
        let t = self.proof_skeleton()?;
        self.skip_ws();
        if !self.is_eof() {
            return Err(self.err("unexpected trailing proof text"));
        }
        Ok(t)
    }
}

fn leaf_proof(m: ProofMethod) -> (t: ProofTree)
    ensures
        t.deep_view() == leaf(m.deep_view()),
{
    proof {
        reveal(leaf);
    }
    ProofTree { method: m, case_names: no_items::<String>(), cases: no_items::<ProofTree>() }
}

fn proof_of_child(m: ProofMethod, p: ProofTree) -> (t: ProofTree)
    ensures
        t.deep_view() == only_child(m.deep_view(), p.deep_view()),
{
    proof {
        reveal(only_child);
    }
    let names = one_item(String::new());
    ProofTree { method: m, case_names: names, cases: one_item(p) }
}

fn proof_of_cases(m: ProofMethod, names: Vec<String>, cases: Vec<ProofTree>) -> (t: ProofTree)
    ensures
        t.deep_view() == with_cases(m.deep_view(), names.deep_view(), cases.deep_view()),
{
    proof {
        reveal(with_cases);
    }
    ProofTree { method: m, case_names: names, cases }
}

} // verus!
