//! What is read where: flags, branches, files and whole texts.

use crate::actions::{pattern, patterned};
use crate::ast::{FlagM, FormulaM, ItemM, RuleM, TheoryM};
use crate::error::ErrorM;
use crate::flags::{flag_formula, holds};
use crate::formulas::formula;
use crate::items::{behind_directive, directive};
use crate::laws::tokens::{inside, reads};
use crate::parser::{begun, intruder_rules, reading, seeded, whole_formula, OutcomeM};
use crate::paths::{file_name_of, parent_of};
use crate::rules::rule_variant;
use crate::signature::MaudeSigM;
use crate::state::{group_steps, SourceFileM, StateM, PS};
use crate::terms::term;
use crate::theory::{
    bare, behind_endif, branch_end, condition_here, conditional, file_at, fragment, included,
    included_path, items, resumed, BranchEnd,
};
use vstd::prelude::*;

verus! {

broadcast use {group_steps, crate::tokens::group_lexer};

/// The condition behind `#ifdef` is read from the text at hand, and changes no
/// flag.
pub proof fn law_conditions_are_read(s: PS)
    requires
        inside(s),
    ensures
        bare(s).src == s.src && bare(s).at == s.at && bare(s).st.flags == s.st.flags && bare(s).sig
            == s.sig,
        bare(s).fwd(flag_formula(bare(s)).1) ==> condition_here(s).0 == flag_formula(bare(s)).0
            && condition_here(s).1.st.flags == s.st.flags && condition_here(s).1.at
            == flag_formula(bare(s)).1.at,
{
    reveal(condition_here);
}

/// The items of a branch are read exactly where the condition holds under the
/// flags that are set: a live branch without `#else` gives its items, and a dead
/// one gives none.
pub proof fn law_live_branches_are_read(s: PS, cond: FlagM, t: PS, v: Seq<ItemM>, e: PS)
    requires
        condition_here(behind_directive(s).ws()) == (Ok::<FlagM, ErrorM>(cond), t),
        s.at < t.at,
    ensures
        holds(cond, t.st.flags) && items(t, Seq::empty()) == (Ok::<Seq<ItemM>, ErrorM>(v), e)
            && !e.punct("#else"@).0 && e.punct("#else"@).1.punct("#endif"@).0 ==> conditional(s)
            == (Ok::<Seq<ItemM>, ErrorM>(v), e.punct("#else"@).1.punct("#endif"@).1),
        holds(cond, t.st.flags) && items(t, Seq::empty()).0 is Err ==> conditional(s).0 is Err,
        !holds(cond, t.st.flags) && branch_end(t, 0).0 is Endif ==> conditional(s) == (
            Ok::<Seq<ItemM>, ErrorM>(Seq::empty()),
            branch_end(t, 0).1,
        ),
        !holds(cond, t.st.flags) && branch_end(t, 0).0 is Eof ==> conditional(s).0 is Err,
{
}

/// A dead branch ends with its own `#else` or `#endif`: a condition inside it
/// has to be closed first.
pub proof fn law_dead_branches_end(s: PS, depth: int)
    requires
        inside(s),
        0 <= depth,
    ensures
        ({
            let w = s.ws();
            let t = behind_directive(w);
            &&& directive(w) == Some("ifdef"@) ==> branch_end(s, depth) == branch_end(
                t,
                depth + 1,
            )
            &&& directive(w) == Some("endif"@) && directive(w) != Some("ifdef"@) ==> branch_end(
                s,
                depth,
            ) == (if depth == 0 {
                (BranchEnd::Endif, t)
            } else {
                branch_end(t, depth - 1)
            })
            &&& directive(w) == Some("else"@) && directive(w) != Some("ifdef"@) && directive(w)
                != Some("endif"@) ==> branch_end(s, depth) == (if depth == 0 {
                (BranchEnd::Else, t)
            } else {
                branch_end(t, depth)
            })
            &&& directive(w) is None && w.peek() is Some ==> branch_end(s, depth) == branch_end(
                w.bump(),
                depth,
            )
            &&& w.peek() is None ==> branch_end(s, depth).0 is Eof
        }),
{
    reveal(directive);
}

/// What is left of a condition whose `#else` is dead ends behind the `#endif`
/// that closes it.
pub proof fn law_dead_rests_end(s: PS, depth: int)
    requires
        inside(s),
        0 <= depth,
    ensures
        ({
            let w = s.ws();
            let c = w.eat("#endif"@);
            &&& c.0 && depth == 0 ==> behind_endif(s, depth) == c.1.ws()
            &&& c.0 && depth > 0 ==> behind_endif(s, depth) == behind_endif(c.1, depth - 1)
            &&& !c.0 && directive(w) == Some("ifdef"@) ==> behind_endif(s, depth) == behind_endif(
                behind_directive(w),
                depth + 1,
            )
            &&& !c.0 && directive(w) != Some("ifdef"@) && w.peek() is Some ==> behind_endif(
                s,
                depth,
            ) == behind_endif(w.bump(), depth)
            &&& w.peek() is None ==> behind_endif(s, depth) == w
        }),
{
    reveal(directive);
    reveal_strlit("#endif");
    if s.ws().eat("#endif"@).0 {
        assert(s.ws().peek() is Some);
    }
}

/// A file that is included is the first of that path among those at hand.
pub proof fn law_files_at_hand(files: Seq<SourceFileM>, path: Seq<char>, k: int)
    requires
        0 <= k <= files.len(),
        forall|j: int| 0 <= j < k ==> (#[trigger] files[j]).path != path,
    ensures
        k < files.len() && files[k].path == path ==> file_at(files, path, 0) == Some(files[k]),
        k == files.len() ==> file_at(files, path, 0) is None,
{
    lemma_files(files, path, 0, k);
}

proof fn lemma_files(files: Seq<SourceFileM>, path: Seq<char>, i: int, k: int)
    requires
        0 <= i <= k <= files.len(),
        forall|j: int| 0 <= j < k ==> (#[trigger] files[j]).path != path,
    ensures
        k < files.len() && files[k].path == path ==> file_at(files, path, i) == Some(files[k]),
        k == files.len() ==> file_at(files, path, i) is None,
    decreases k - i,
{
    if i < k {
        lemma_files(files, path, i + 1, k);
    }
}

/// A file that is not at hand is asked for by its path, and one that could not
/// be read is an error that says why.
pub proof fn law_missing_files(s: PS, raw: Seq<char>, t: PS)
    requires
        behind_directive(s).ws().need_literal() == (Ok::<Seq<char>, ErrorM>(raw), t),
    ensures
        ({
            let path = included_path(t.place.base_dir, raw);
            &&& file_at(t.st.files, path, 0) is None ==> included(s).0 is Err && included(
                s,
            ).1.st.wanted == Some(path)
            &&& file_at(t.st.files, path, 0) matches Some(f) ==> (f.content matches Err(why)
                ==> included(s).0 is Err && included(s).1.st.wanted == t.st.wanted)
        }),
{
}

/// An included file is read from its start, in its own directory, with the
/// functions, the flags and the names that are known where it is included.
pub proof fn law_included_files_know_what_is_known(
    s: PS,
    text: Seq<char>,
    path: Seq<char>,
    staged: Option<Seq<char>>,
    canonical: Seq<char>,
)
    ensures
        ({
            let f = fragment(s, text, path, staged, canonical);
            &&& f.src == text && f.at == 0
            &&& f.sig == s.sig && f.st.flags == s.st.flags && f.st.seen == s.st.seen && f.st.files
                == s.st.files
            &&& f.place.base_dir == parent_of(path) && f.place.source_file == Some(path)
                && f.place.staged_file == staged && f.place.is_diff == s.place.is_diff
            &&& f.st.include_stack == s.st.include_stack.push(canonical)
        }),
{
}

/// Behind an include the reading goes on where it was, knowing what the file
/// made known.
pub proof fn law_reading_goes_on_behind_includes(s: PS, t: PS)
    ensures
        ({
            let r = resumed(s, t);
            &&& r.src == s.src && r.at == s.at && r.place == s.place && r.mode == s.mode
            &&& r.sig == t.sig && r.st.flags == t.st.flags && r.st.seen == t.st.seen
            &&& r.st.include_stack == s.st.include_stack
        }),
{
}

/// What a reading comes to: a theory, a file that has to be at hand first, or an
/// error.
pub proof fn law_outcomes(r: Result<TheoryM, ErrorM>, st: StateM)
    ensures
        r matches Ok(t) ==> reading(r, st).outcome == OutcomeM::Done(t),
        r is Err && st.wanted is Some ==> reading(r, st).outcome
            == OutcomeM::<TheoryM>::NeedsFile(st.wanted->0),
        r is Err && st.wanted is None ==> reading(r, st).outcome == OutcomeM::<TheoryM>::Failed(
            r->Err_0,
        ),
        reading(r, st).axiom_warning == st.axiom_warning,
{
}

/// Where a theory is read from: a root file has its own directory and name, and
/// a text has the directory that is given.
pub proof fn law_places_of_theories(
    src: Seq<char>,
    flags: Seq<Seq<char>>,
    is_diff: bool,
    root: Seq<char>,
    dir: Option<Seq<char>>,
    files: Seq<SourceFileM>,
)
    ensures
        ({
            let s = begun(src, flags, is_diff, Some(root), dir, files);
            &&& s.src == src && s.at == 0 && s.st.flags == flags && s.st.files == files
            &&& s.place.is_diff == is_diff && s.place.base_dir == parent_of(root)
            &&& s.place.source_file == Some(root) && s.place.staged_file == file_name_of(root)
            &&& s.st.input_aliases.len() == 1 && s.st.input_aliases[0].physical == root
                && s.st.input_aliases[0].staged == file_name_of(root)
            &&& !s.st.emit_warnings
        }),
        ({
            let s = begun(src, flags, is_diff, None, dir, files);
            &&& s.src == src && s.at == 0 && s.st.flags == flags && s.st.files == files
            &&& s.place.is_diff == is_diff && s.place.base_dir == dir
            &&& s.place.source_file is None && s.place.staged_file is None
            &&& s.st.input_aliases.len() == 0 && s.st.emit_warnings
        }),
{
}

/// A formula that is read as a whole is the whole text.
pub proof fn law_whole_formulas(s: PS)
    ensures
        whole_formula(s) matches Ok(f) ==> formula(s).0 == Ok::<FormulaM, ErrorM>(f) && formula(
            s,
        ).1.ws().eof(),
        formula(s).0 matches Ok(f) ==> formula(s).1.ws().eof() ==> whole_formula(s) == Ok::<
            FormulaM,
            ErrorM,
        >(f),
{
    reveal(whole_formula);
}

/// The rules of the adversary come in their order, up to the end of the text.
pub proof fn law_rules_of_the_adversary_in_order(s: PS, acc: Seq<RuleM>, r: RuleM, e: PS)
    ensures
        s.ws().eof() ==> intruder_rules(s, acc).0 == Ok::<Seq<RuleM>, ErrorM>(acc),
        !s.ws().eof() && reads(s.ws(), rule_variant(s.ws()), r, e) && s.ws().at < e.at
            ==> intruder_rules(s, acc) == intruder_rules(e, acc.push(r)),
{
}

/// A parser that takes over a signature knows its macros, and the theories that
/// are turned on in it; pairings turn Diffie-Hellman on.
pub proof fn law_signatures_are_taken_over(s: PS, sig: MaudeSigM)
    ensures
        ({
            let t = seeded(s, sig);
            &&& t.sig.enable_dh <==> sig.enable_dh || sig.enable_bp
            &&& t.sig.enable_bp == sig.enable_bp && t.sig.enable_xor == sig.enable_xor
            &&& t.sig.enable_mset == sig.enable_mset && t.sig.enable_nat == sig.enable_nat
            &&& t.sig.macro_syms == sig.macro_names
            &&& t.src == s.src && t.at == s.at && t.st == s.st && t.place == s.place
        }),
{
}

/// A pattern is a term in which `=` may stand before a variable; behind it the
/// reading is as before.
pub proof fn law_patterns_are_read(s: PS)
    ensures
        patterned(s).mode.pat && patterned(s).mode.sapic == s.mode.sapic && patterned(s).src
            == s.src && patterned(s).at == s.at,
        pattern(s).0 == term(patterned(s)).0,
        pattern(s).1.mode == s.mode,
        pattern(s).1.at == term(patterned(s)).1.at,
{
    reveal(pattern);
}

} // verus!
