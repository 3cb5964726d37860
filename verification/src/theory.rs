//! Theories: their items, the branches of conditions, and included files.

use crate::ast::{
    AccLemma, AccLemmaM, DiffLemma, DiffLemmaM, FlagFormula, FlagM, ItemM, Lemma, LemmaM, Theory,
    TheoryItem, TheoryM,
};
use crate::basics::{fail_item, initial, labels1};
use crate::error::{outcome, ErrorM, ParseError};
use crate::flags::{eval_flagformula, flag_formula, holds};
use crate::items::{behind_directive, directive, item};
use crate::lexer::MAX_CHARS;
use crate::model::{no_items, put, put_all};
use crate::names::{
    all_follow, all_noted, fits, follows, lemma_all_follow, lemma_one_follows, noted,
};
use crate::order::orderly;
use crate::paths::{
    absolute, join_path, parent_of, parent_path, path_in, path_is_absolute,
};
use crate::state::{
    group_steps, step, FilePlace, InputAlias, InputAliasM, Parser, PlaceM, SeenM, SourceFile,
    SourceFileM, StateM, Step, PS,
};
use crate::text::{chars_of, has_text, join, joined, same};
use crate::values::copy_text_opt;
use vstd::prelude::*;

verus! {

broadcast use {group_steps, crate::tokens::group_lexer, crate::ast::group_models};

/// What ends the branch of a condition that does not hold.
#[derive(Debug)]
pub enum BranchEnd {
    Else,
    Endif,
    Eof,
}

/// Behind the `#endif` that closes the condition around `s`, and the white
/// space that follows; `depth` conditions are open inside it. At the end where
/// there is none. Here an `#endif` may run into the text behind it.
pub open spec fn behind_endif(s: PS, depth: int) -> PS
    decreases s.rem(),
{
    let w = s.ws();
    let (close, s1) = w.eat("#endif"@);
    if w.peek() is None {
        w
    } else if close {
        if depth == 0 {
            s1.ws()
        } else {
            behind_endif(s1, depth - 1)
        }
    } else if directive(w) == Some("ifdef"@) {
        behind_endif(behind_directive(w), depth + 1)
    } else {
        behind_endif(w.bump(), depth)
    }
}

/// What ends the branch at `s`, where `depth` conditions have been opened in
/// it, and the state behind that.
pub open spec fn branch_end(s: PS, depth: int) -> (BranchEnd, PS)
    decreases s.rem(),
{
    let w = s.ws();
    match directive(w) {
        None => if w.peek() is None {
            (BranchEnd::Eof, w)
        } else {
            branch_end(w.bump(), depth)
        },
        Some(d) => {
            let s1 = behind_directive(w);
            if d == "ifdef"@ {
                branch_end(s1, depth + 1)
            } else if d == "endif"@ {
                if depth == 0 {
                    (BranchEnd::Endif, s1)
                } else {
                    branch_end(s1, depth - 1)
                }
            } else if d == "else"@ && depth == 0 {
                (BranchEnd::Else, s1)
            } else {
                branch_end(s1, depth)
            }
        },
    }
}

/// How many more files can be opened inside each other.
pub open spec fn room(st: StateM) -> int {
    if st.include_stack.len() < st.files.len() {
        st.files.len() - st.include_stack.len()
    } else {
        0
    }
}

/// Whether the open files are files at hand, each opened once, and each file
/// at hand is short enough for its positions to be counted.
pub open spec fn files_ok(st: StateM) -> bool {
    &&& st.include_stack.no_duplicates()
    &&& forall|i: int|
        0 <= i < st.include_stack.len() ==> canonicals(st.files).contains(
            #[trigger] st.include_stack[i],
        )
    &&& short_files(st.files)
}

pub open spec fn short_files(files: Seq<SourceFileM>) -> bool {
    forall|i: int|
        0 <= i < files.len() ==> ((#[trigger] files[i]).content matches Ok(t) ==> t.len()
            <= MAX_CHARS)
}

pub open spec fn canonicals(files: Seq<SourceFileM>) -> Seq<Seq<char>> {
    files.map_values(|f: SourceFileM| f.canonical)
}

/// A file at hand that is not open leaves room for itself.
pub proof fn lemma_room(st: StateM, path: Seq<char>)
    requires
        files_ok(st),
        canonicals(st.files).contains(path),
        !st.include_stack.contains(path),
    ensures
        st.include_stack.len() < st.files.len(),
        files_ok((StateM { include_stack: st.include_stack.push(path), ..st })),
{
    let more = st.include_stack.push(path);
    let all = canonicals(st.files);
    assert(more.no_duplicates());
    assert forall|i: int| 0 <= i < more.len() implies all.contains(#[trigger] more[i]) by {
        if i < st.include_stack.len() {
            assert(more[i] == st.include_stack[i]);
        }
    }
    more.unique_seq_to_set();
    all.lemma_cardinality_of_set();
    assert(more.to_set().subset_of(all.to_set()));
    vstd::set_lib::lemma_len_subset(more.to_set(), all.to_set());
}

/// The first file at hand under that path.
pub open spec fn file_at(files: Seq<SourceFileM>, path: Seq<char>, i: int) -> Option<SourceFileM>
    decreases files.len() - i,
{
    if i < 0 || i >= files.len() {
        None
    } else if files[i].path == path {
        Some(files[i])
    } else {
        file_at(files, path, i + 1)
    }
}

/// Where `name` first stands in `names`, from `i` on.
pub open spec fn index_from(names: Seq<Seq<char>>, name: Seq<char>, i: int) -> int
    decreases names.len() - i,
{
    if i < 0 || i >= names.len() || names[i] == name {
        i
    } else {
        index_from(names, name, i + 1)
    }
}

/// The path of an included file.
pub open spec fn included_path(base_dir: Option<Seq<char>>, raw: Seq<char>) -> Seq<char> {
    match base_dir {
        Some(dir) => path_in(dir, raw),
        None => raw,
    }
}

/// The staged path of an included file.
pub open spec fn included_staged(staged_file: Option<Seq<char>>, raw: Seq<char>) -> Option<
    Seq<char>,
> {
    if absolute(raw) {
        None
    } else {
        match staged_file {
            None => None,
            Some(f) => Some(
                path_in(
                    match parent_of(f) {
                        Some(d) => d,
                        None => Seq::empty(),
                    },
                    raw,
                ),
            ),
        }
    }
}

/// The state in which the file is listed among the inputs.
pub open spec fn with_input(s: PS, physical: Seq<char>, staged: Option<Seq<char>>) -> PS {
    PS {
        st: StateM {
            input_aliases: s.st.input_aliases.push(InputAliasM { physical, staged }),
            ..s.st
        },
        ..s
    }
}

/// The message that a file could not be read.
pub open spec fn unread(path: Seq<char>, why: Seq<char>) -> Seq<char> {
    "failed to read included file "@ + path + ": "@ + why
}

/// The message that a file would be opened inside itself.
pub open spec fn cycle_text(stack: Seq<Seq<char>>, path: Seq<char>) -> Seq<char> {
    "`#include` cycle: "@ + joined(stack.skip(index_from(stack, path, 0)).push(path), " -> "@)
}

/// The start of the included file `text`, with what `s` knows.
pub open spec fn fragment(
    s: PS,
    text: Seq<char>,
    path: Seq<char>,
    staged: Option<Seq<char>>,
    canonical: Seq<char>,
) -> PS {
    PS {
        sig: s.sig,
        st: StateM { include_stack: s.st.include_stack.push(canonical), ..s.st },
        place: PlaceM {
            is_diff: s.place.is_diff,
            base_dir: parent_of(path),
            source_file: Some(path),
            staged_file: staged,
        },
        ..initial(text, Seq::empty(), s.place.is_diff)
    }
}

/// The state `s` with what was learnt in the included file that ended in `t`.
pub open spec fn resumed(s: PS, t: PS) -> PS {
    PS { sig: t.sig, st: StateM { include_stack: s.st.include_stack, ..t.st }, ..s }
}

/// The state apart from where the text stands and from other files: what an
/// item can see.
pub open spec fn bare(s: PS) -> PS {
    PS {
        place: PlaceM {
            is_diff: s.place.is_diff,
            base_dir: None,
            source_file: None,
            staged_file: None,
        },
        st: StateM {
            input_aliases: Seq::empty(),
            emit_warnings: true,
            axiom_warning: false,
            include_stack: Seq::empty(),
            files: Seq::empty(),
            wanted: None,
            ..s.st
        },
        ..s
    }
}

/// The state `t` with what [`bare`] leaves out of `s`.
pub open spec fn back_in_place(s: PS, t: PS) -> PS {
    PS {
        place: s.place,
        st: StateM {
            input_aliases: s.st.input_aliases,
            emit_warnings: s.st.emit_warnings,
            axiom_warning: s.st.axiom_warning || (s.st.emit_warnings && t.st.axiom_warning),
            include_stack: s.st.include_stack,
            files: s.st.files,
            wanted: s.st.wanted,
            ..t.st
        },
        ..t
    }
}

/// The item with the file that it was read from.
pub open spec fn sourced(x: ItemM, source_file: Option<Seq<char>>) -> ItemM {
    match x {
        ItemM::Lemma(l) => ItemM::Lemma(LemmaM { source_file, ..l }),
        ItemM::AccLemma(l) => ItemM::AccLemma(AccLemmaM { source_file, ..l }),
        ItemM::DiffLemma(l) => ItemM::DiffLemma(DiffLemmaM { source_file, ..l }),
        ItemM::Heuristic { raw, .. } => ItemM::Heuristic { raw, source_file },
        _ => x,
    }
}

/// The item at `s`, read apart from where the text stands.
#[verifier::opaque]
pub open spec fn item_here(s: PS) -> Step<ItemM> {
    match item(bare(s)) {
        (Ok(x), t) => (Ok(sourced(x, s.place.source_file)), back_in_place(s, t)),
        (Err(e), t) => (Err(e), back_in_place(s, t)),
    }
}

/// The condition at `s`, read apart from where the text stands.
#[verifier::opaque]
pub open spec fn condition_here(s: PS) -> Step<FlagM> {
    let r = step(bare(s), flag_formula(bare(s)));
    (r.0, back_in_place(s, r.1))
}

/// The error that no item starts at `s`, made apart from where the text stands.
pub open spec fn no_item_here<T>(s: PS) -> Step<T> {
    let r = fail_item::<T>(bare(s));
    (r.0, back_in_place(s, r.1))
}

/// The items of the included file that the directive at `s` names.
pub open spec fn included(s: PS) -> Step<Seq<ItemM>>
    decreases room(s.st), s.rem(), 0int,
{
    proof {
        reveal(PS::literal);
    }
    match behind_directive(s).ws().need_literal() {
        (Err(e), s1) => (Err(e), s1),
        (Ok(raw), s1) => {
            let path = included_path(s1.place.base_dir, raw);
            let staged = included_staged(s1.place.staged_file, raw);
            let s2 = with_input(s1, path, staged);
            match file_at(s2.st.files, path, 0) {
                None => (
                    Err(s2.err(unread(path, "it is not at hand"@))),
                    PS { st: StateM { wanted: Some(path), ..s2.st }, ..s2 },
                ),
                Some(f) => match f.content {
                    Err(why) => (Err(s2.err(unread(path, why))), s2),
                    Ok(text) => if s2.st.include_stack.contains(f.canonical) {
                        (Err(s2.err(cycle_text(s2.st.include_stack, f.canonical))), s2)
                    } else if room(s2.st) == 0 {
                        (Err(s2.err(Seq::empty())), s2)
                    } else {
                        match items(fragment(s2, text, path, staged, f.canonical), Seq::empty()) {
                            (Err(e), t) => (Err(e), resumed(s2, t)),
                            (Ok(v), t) => if t.ws().eof() {
                                (Ok(v), resumed(s2, t))
                            } else {
                                (
                                    Err(
                                        t.ws().err("unexpected trailing input in included file"@),
                                    ),
                                    resumed(s2, t),
                                )
                            },
                        }
                    },
                },
            }
        },
    }
}

/// The items of the branch that holds of the condition at `s`.
pub open spec fn conditional(s: PS) -> Step<Seq<ItemM>>
    decreases room(s.st), s.rem(), 0int,
{
    proof {
        reveal(condition_here);
    }
    let s1 = behind_directive(s).ws();
    match condition_here(s1) {
        (Err(e), s2) => (Err(e), s2),
        (Ok(cond), s2) => if s2.at <= s.at {
            (Err(s.err(Seq::empty())), s)
        } else if holds(cond, s2.st.flags) {
            match items(s2, Seq::empty()) {
                (Err(e), s3) => (Err(e), s3),
                (Ok(v), s3) => {
                    let (other, s4) = s3.punct("#else"@);
                    let (closed, s5) = s4.punct("#endif"@);
                    if other {
                        (Ok(v), behind_endif(s4, 0))
                    } else if closed {
                        (Ok(v), s5)
                    } else {
                        (Err(s5.err("expected #endif or #else"@)), s5)
                    }
                },
            }
        } else {
            match branch_end(s2, 0) {
                (BranchEnd::Else, s3) => if !s2.past(s3) {
                    (Err(s.err(Seq::empty())), s)
                } else {
                    match items(s3, Seq::empty()) {
                        (Err(e), s4) => (Err(e), s4),
                        (Ok(v), s4) => match s4.need("#endif"@) {
                            (Err(e), s5) => (Err(e), s5),
                            (Ok(_), s5) => (Ok(v), s5),
                        },
                    }
                },
                (BranchEnd::Endif, s3) => (Ok(Seq::empty()), s3),
                (BranchEnd::Eof, s3) => (Err(s3.err("unterminated #ifdef"@)), s3),
            }
        },
    }
}

/// The items from `s` on, behind those in `acc`: up to the end of the text,
/// the word `end`, or the end of a branch.
pub open spec fn items(s: PS, acc: Seq<ItemM>) -> Step<Seq<ItemM>>
    decreases room(s.st), s.rem(), 1int,
{
    let w = s.ws();
    let d = directive(w);
    if w.eof() || w.at_kw("end"@) || d == Some("endif"@) || d == Some("else"@) {
        (Ok(acc), w)
    } else {
        let r = if d == Some("include"@) {
            included(w)
        } else if d == Some("ifdef"@) {
            conditional(w)
        } else {
            match item_here(w) {
                (Ok(x), s1) => (Ok(seq![x]), s1),
                (Err(e), s1) => (Err(e), s1),
            }
        };
        match r {
            (Err(e), s1) => (Err(e), s1),
            (Ok(v), s1) => if w.ahead(s1) && w.at < s1.at {
                items(s1, acc + v)
            } else {
                (Err(w.err(Seq::empty())), s1)
            },
        }
    }
}

/// The configuration of a theory, up to `begin`.
#[verifier::opaque]
pub open spec fn configuration(s: PS) -> Step<Option<Seq<char>>> {
    let (configured, s1) = s.kw("configuration"@);
    let (begun, s2) = s.kw("begin"@);
    if configured {
        match s1.need(":"@) {
            (Err(e), t) => (Err(e), t),
            (Ok(_), t) => match t.need_literal() {
                (Err(e), u) => (Err(e), u),
                (Ok(c), u) => match u.need_kw("begin"@) {
                    (Err(e), x) => (Err(e), x),
                    (Ok(_), x) => (Ok(Some(c)), x),
                },
            },
        }
    } else if begun {
        (Ok(None), s2)
    } else {
        s.fail_expect(seq!["configuration or begin"@])
    }
}

/// A theory, up to its `end`; what follows that is not looked at.
#[verifier::opaque]
pub open spec fn theory(s: PS) -> Step<TheoryM> {
    match s.ws().need_kw("theory"@) {
        (Err(e), s1) => (Err(e), s1),
        (Ok(_), s1) => match s1.ident() {
            (Err(e), s2) => (Err(e), s2),
            (Ok(name), s2) => match configuration(s2) {
                (Err(e), s3) => (Err(e), s3),
                (Ok(configuration), s3) => match items(s3, Seq::empty()) {
                    (Err(e), s4) => (Err(e), s4),
                    (Ok(items), s4) => {
                        let (ended, s5) = s4.kw("end"@);
                        if ended {
                            (
                                Ok(
                                    (TheoryM {
                                        is_diff: s.place.is_diff,
                                        name,
                                        configuration,
                                        items,
                                    }),
                                ),
                                s5,
                            )
                        } else {
                            no_item_here(s4)
                        }
                    },
                },
            },
        },
    }
}

fn find_file(files: &Vec<SourceFile>, path: &str) -> (r: Option<usize>)
    ensures
        match file_at(files.deep_view(), path@, 0) {
            Some(f) => r is Some && r->0 < files@.len() && files@[r->0 as int].deep_view() == f,
            None => r is None,
        },
{
    let mut i: usize = 0;
    while i < files.len()
        invariant
            i <= files@.len(),
            file_at(files.deep_view(), path@, i as int) == file_at(files.deep_view(), path@, 0),
        decreases files@.len() - i,
    {
        assert(files.deep_view()[i as int] == files@[i as int].deep_view());
        if same(&files[i].path, path) {
            return Some(i);
        }
        i = i + 1;
    }
    None
}

fn cycle_message(stack: &Vec<String>, path: &str) -> (r: String)
    ensures
        r@ == cycle_text(stack.deep_view(), path@),
{
    let ghost names = stack.deep_view();
    let mut at: usize = 0;
    while at < stack.len() && !same(&stack[at], path)
        invariant
            at <= stack@.len(),
            names == stack.deep_view(),
            index_from(names, path@, at as int) == index_from(names, path@, 0),
        decreases stack@.len() - at,
    {
        assert(names[at as int] == stack@[at as int]@);
        at = at + 1;
    }
    let ghost k = index_from(names, path@, 0);
    proof {
        if at < stack@.len() {
            assert(names[at as int] == stack@[at as int]@);
        }
        assert(at == k);
    }
    let mut chain = no_items::<String>();
    let mut i: usize = at;
    while i < stack.len()
        invariant
            at <= i <= stack@.len(),
            names == stack.deep_view(),
            chain.deep_view() == names.subrange(at as int, i as int),
        decreases stack@.len() - i,
    {
        put(&mut chain, stack[i].clone());
        i = i + 1;
        assert(chain.deep_view() =~= names.subrange(at as int, i as int));
    }
    assert(chain.deep_view() =~= names.skip(k));
    put(&mut chain, path.to_string());
    let mut r = "`#include` cycle: ".to_string();
    let s = join(&chain, " -> ");
    r.push_str(&s);
    r
}

fn unread_message(path: &str, why: &str) -> (r: String)
    ensures
        r@ == unread(path@, why@),
{
    let mut r = "failed to read included file ".to_string();
    r.push_str(path);
    r.push_str(": ");
    r.push_str(why);
    r
}

fn path_of_include(base_dir: &Option<String>, raw: &str) -> (r: String)
    ensures
        r@ == included_path(base_dir.deep_view(), raw@),
{
    match base_dir {
        Some(dir) => join_path(dir, raw),
        None => raw.to_string(),
    }
}

fn staged_include(staged_file: &Option<String>, raw: &str) -> (r: Option<String>)
    ensures
        r.deep_view() == included_staged(staged_file.deep_view(), raw@),
{
    if path_is_absolute(raw) {
        return None;
    }
    match staged_file {
        None => None,
        Some(f) => {
            let dir = match parent_path(f) {
                Some(d) => d,
                None => {
                    let d = String::new();
                    assert(d@ =~= Seq::empty());
                    d
                },
            };
            Some(join_path(&dir, raw))
        },
    }
}

/// Whether `o` is a later state than `s`, and any file that came to be wanted
/// in between is not at hand and stopped the parse.
pub open spec fn onward(s: PS, done: bool, o: PS) -> bool {
    &&& s.ahead(o)
    &&& orderly(s.sig) ==> orderly(o.sig)
    &&& o.st.wanted == s.st.wanted || (!done && o.st.wanted is Some && file_at(
        s.st.files,
        o.st.wanted->0,
        0,
    ) is None)
}

/// What [`bare`] leaves out of a parser.
struct Aside {
    place: FilePlace,
    input_aliases: Vec<InputAlias>,
    emit_warnings: bool,
    axiom_warning: bool,
    include_stack: Vec<String>,
    files: Vec<SourceFile>,
    wanted: Option<String>,
}

/// Whether this is what [`bare`] leaves out of `s`.
spec fn aside_of(a: Aside, s: PS) -> bool {
    &&& a.place.deep_view() == s.place
    &&& a.input_aliases.deep_view() == s.st.input_aliases
    &&& a.emit_warnings == s.st.emit_warnings
    &&& a.axiom_warning == s.st.axiom_warning
    &&& a.include_stack.deep_view() == s.st.include_stack
    &&& a.files.deep_view() == s.st.files
    &&& a.wanted.deep_view() == s.st.wanted
}

/// The item with the file that it was read from.
fn with_source(x: TheoryItem, source_file: Option<String>) -> (r: TheoryItem)
    ensures
        r.deep_view() == sourced(x.deep_view(), source_file.deep_view()),
{
    match x {
        TheoryItem::Lemma(l) => TheoryItem::Lemma(Lemma { source_file, ..l }),
        TheoryItem::AccLemma(l) => TheoryItem::AccLemma(AccLemma { source_file, ..l }),
        TheoryItem::DiffLemma(l) => TheoryItem::DiffLemma(DiffLemma { source_file, ..l }),
        TheoryItem::Heuristic { raw, .. } => TheoryItem::Heuristic { raw, source_file },
        x => x,
    }
}

/// The file that an item was read from takes no name.
proof fn lemma_sourced(is_diff: bool, a: SeenM, x: ItemM, source_file: Option<Seq<char>>)
    ensures
        fits(is_diff, a, sourced(x, source_file)) == fits(is_diff, a, x),
        noted(is_diff, a, sourced(x, source_file)) == noted(is_diff, a, x),
{
    reveal(fits);
    reveal(noted);
}

impl Parser {
    /// Lays aside where the text stands and what is known of other files.
    fn lay_aside(&mut self) -> (a: Aside)
        requires
            old(self).wf(),
        ensures
            final(self).wf(),
            final(self)@ == bare(old(self)@),
            aside_of(a, old(self)@),
    {
        let mut a = Aside {
            place: FilePlace {
                is_diff: self.place.is_diff,
                base_dir: None,
                source_file: None,
                staged_file: None,
            },
            input_aliases: no_items::<InputAlias>(),
            emit_warnings: self.st.emit_warnings,
            axiom_warning: self.st.axiom_warning,
            include_stack: no_items::<String>(),
            files: no_items::<SourceFile>(),
            wanted: None,
        };
        std::mem::swap(&mut self.place, &mut a.place);
        std::mem::swap(&mut self.st.input_aliases, &mut a.input_aliases);
        std::mem::swap(&mut self.st.include_stack, &mut a.include_stack);
        std::mem::swap(&mut self.st.files, &mut a.files);
        std::mem::swap(&mut self.st.wanted, &mut a.wanted);
        self.st.emit_warnings = true;
        self.st.axiom_warning = false;
        a
    }

    /// Takes up again what was laid aside in the state `s`.
    fn take_up(&mut self, a: Aside, Ghost(s): Ghost<PS>)
        requires
            old(self).wf(),
            aside_of(a, s),
        ensures
            final(self).wf(),
            final(self)@ == back_in_place(s, old(self)@),
    {
        self.place = a.place;
        self.st.input_aliases = a.input_aliases;
        self.st.axiom_warning = a.axiom_warning || (a.emit_warnings && self.st.axiom_warning);
        self.st.emit_warnings = a.emit_warnings;
        self.st.include_stack = a.include_stack;
        self.st.files = a.files;
        self.st.wanted = a.wanted;
    }

    /// The item, read apart from where the text stands.
    #[verifier::spinoff_prover]
    fn item_here(&mut self) -> (r: Result<TheoryItem, ParseError>)
        requires
            old(self).wf(),
        ensures
            final(self).wf(),
            (outcome(r), final(self)@) == item_here(old(self)@),
            onward(old(self)@, true, final(self)@),
            r matches Ok(x) ==> follows(old(self)@, x.deep_view(), final(self)@),
            r is Ok ==> old(self)@.at < final(self)@.at,
    {
        proof {
            reveal(item_here);
        }
        let a = self.lay_aside();
        let r = self.theory_item();
        self.take_up(a, Ghost(old(self)@));
        match r {
            Ok(x) => {
                proof {
                    lemma_sourced(
                        old(self)@.place.is_diff,
                        old(self)@.st.seen,
                        x.deep_view(),
                        old(self)@.place.source_file,
                    );
                }
                let source_file = copy_text_opt(&self.place.source_file);
                Ok(with_source(x, source_file))
            },
            Err(e) => Err(e),
        }
    }

    /// The condition, read apart from where the text stands.
    #[verifier::spinoff_prover]
    fn condition_here(&mut self) -> (r: Result<FlagFormula, ParseError>)
        requires
            old(self).wf(),
        ensures
            final(self).wf(),
            (outcome(r), final(self)@) == condition_here(old(self)@),
            old(self)@.fwd(final(self)@),
    {
        proof {
            reveal(condition_here);
        }
        let a = self.lay_aside();
        let r = self.flag_formula();
        self.take_up(a, Ghost(old(self)@));
        r
    }

    /// Steps behind the `#endif` that closes the condition, or to the end.
    fn skip_dead_else(&mut self)
        requires
            old(self).wf(),
        ensures
            final(self).wf(),
            final(self)@ == behind_endif(old(self)@, 0),
            old(self)@.past(final(self)@),
    {
        let mut depth: usize = 0;
        loop
            invariant
                self.wf(),
                old(self)@.past(self@),
                depth <= self@.at,
                behind_endif(self@, depth as int) == behind_endif(old(self)@, 0),
            decreases self@.rem(),
        {
            self.skip_ws();
            if self.is_eof() {
                return;
            }
            if self.lx.eat_str("#endif") {
                if depth == 0 {
                    self.skip_ws();
                    return;
                }
                depth = depth - 1;
                continue;
            }
            if let Some(d) = self.peek_directive() {
                if same(&d, "ifdef") {
                    self.skip_directive();
                    depth = depth + 1;
                    continue;
                }
            }
            self.bump();
        }
    }

    /// Steps to what ends the branch of a condition that does not hold.
    fn skip_until_branch_terminator(&mut self) -> (r: BranchEnd)
        requires
            old(self).wf(),
        ensures
            final(self).wf(),
            (r, final(self)@) == branch_end(old(self)@, 0),
            old(self)@.past(final(self)@),
    {
        let mut depth: usize = 0;
        loop
            invariant
                self.wf(),
                old(self)@.past(self@),
                depth <= self@.at,
                branch_end(self@, depth as int) == branch_end(old(self)@, 0),
            decreases self@.rem(),
        {
            self.skip_ws();
            match self.peek() {
                None => {
                    return BranchEnd::Eof;
                },
                Some(c) => {
                    self.bump();
                    if c == '#' {
                        let name = self.lx.ascii_alpha_run();
                        if same(&name, "ifdef") {
                            depth = depth + 1;
                        } else if same(&name, "endif") {
                            if depth == 0 {
                                return BranchEnd::Endif;
                            }
                            depth = depth - 1;
                        } else if same(&name, "else") && depth == 0 {
                            return BranchEnd::Else;
                        }
                    }
                },
            }
        }
    }

    /// Steps behind the directive at the position.
    fn skip_directive(&mut self)
        requires
            old(self).wf(),
            directive(old(self)@) is Some,
        ensures
            final(self).wf(),
            final(self)@ == behind_directive(old(self)@),
            old(self)@.past(final(self)@),
            old(self)@.at < final(self)@.at,
    {
        self.bump();
        let _name = self.lx.ascii_alpha_run();
    }

    /// The items of the branch that holds.
    #[verifier::spinoff_prover]
    fn expand_ifdef(&mut self) -> (r: Result<Vec<TheoryItem>, ParseError>)
        requires
            old(self).wf(),
            files_ok(old(self)@.st),
            directive(old(self)@) == Some("ifdef"@),
        ensures
            final(self).wf(),
            (outcome(r), final(self)@) == conditional(old(self)@),
            onward(old(self)@, r is Ok, final(self)@),
            r matches Ok(v) ==> all_follow(old(self)@, v.deep_view(), final(self)@),
            r is Ok ==> old(self)@.at < final(self)@.at,
        decreases room(old(self)@.st), old(self)@.rem(), 0int,
    {
        self.skip_directive();
        self.skip_ws();
        let cond = self.condition_here()?;
        if eval_flagformula(&cond, &self.st.flags) {
            let v = self.theory_items_until_end()?;
            if self.try_punct("#else") {
                self.skip_dead_else();
            } else if !self.try_punct("#endif") {
                return Err(self.err("expected #endif or #else"));
            }
            Ok(v)
        } else {
            match self.skip_until_branch_terminator() {
                BranchEnd::Else => {
                    let v = self.theory_items_until_end()?;
                    self.require_punct("#endif")?;
                    Ok(v)
                },
                BranchEnd::Endif => Ok(no_items::<TheoryItem>()),
                BranchEnd::Eof => Err(self.err("unterminated #ifdef")),
            }
        }
    }

    /// The items of the included file that the directive names.
    #[verifier::spinoff_prover]
    fn expand_include(&mut self) -> (r: Result<Vec<TheoryItem>, ParseError>)
        requires
            old(self).wf(),
            files_ok(old(self)@.st),
            directive(old(self)@) == Some("include"@),
        ensures
            final(self).wf(),
            (outcome(r), final(self)@) == included(old(self)@),
            onward(old(self)@, r is Ok, final(self)@),
            r matches Ok(v) ==> all_follow(old(self)@, v.deep_view(), final(self)@),
            r is Ok ==> old(self)@.at < final(self)@.at,
        decreases room(old(self)@.st), old(self)@.rem(), 0int,
    {
        self.skip_directive();
        self.skip_ws();
        let raw = self.string_literal()?;
        let path = path_of_include(&self.place.base_dir, &raw);
        let staged = staged_include(&self.place.staged_file, &raw);
        put(
            &mut self.st.input_aliases,
            InputAlias { physical: path.clone(), staged: copy_text_opt(&staged) },
        );
        let found = find_file(&self.st.files, &path);
        let k = match found {
            None => {
                let e = self.err(&unread_message(&path, "it is not at hand"));
                self.st.wanted = Some(path);
                return Err(e);
            },
            Some(k) => k,
        };
        proof {
            assert(self@.st.files[k as int] == self.st.files@[k as int].deep_view());
            assert(canonicals(self@.st.files)[k as int] == self.st.files@[k as int].canonical@);
        }
        let text = match &self.st.files[k].content {
            Err(why) => {
                return Err(self.err(&unread_message(&path, why)));
            },
            Ok(text) => chars_of(text),
        };
        let canonical = self.st.files[k].canonical.clone();
        if has_text(&self.st.include_stack, &canonical) {
            return Err(self.err(&cycle_message(&self.st.include_stack, &canonical)));
        }
        proof {
            lemma_room(self@.st, canonical@);
        }
        self.parse_include_fragment(text, path, staged, canonical)
    }

    /// The items of the file `text`, read with what is known here.
    #[verifier::spinoff_prover]
    fn parse_include_fragment(
        &mut self,
        text: Vec<char>,
        path: String,
        staged: Option<String>,
        canonical: String,
    ) -> (r: Result<Vec<TheoryItem>, ParseError>)
        requires
            old(self).wf(),
            text@.len() <= MAX_CHARS,
            room(old(self)@.st) > 0,
            files_ok(fragment(old(self)@, text@, path@, staged.deep_view(), canonical@).st),
        ensures
            final(self).wf(),
            (outcome(r), final(self)@) == match items(
                fragment(old(self)@, text@, path@, staged.deep_view(), canonical@),
                Seq::empty(),
            ) {
                (Err(e), t) => (Err(e), resumed(old(self)@, t)),
                (Ok(v), t) => if t.ws().eof() {
                    (Ok(v), resumed(old(self)@, t))
                } else {
                    (
                        Err::<Seq<ItemM>, ErrorM>(
                            t.ws().err("unexpected trailing input in included file"@),
                        ),
                        resumed(old(self)@, t),
                    )
                },
            },
            onward(old(self)@, r is Ok, final(self)@),
            r matches Ok(v) ==> all_follow(old(self)@, v.deep_view(), final(self)@),
            final(self)@.at == old(self)@.at,
        decreases room(old(self)@.st) - 1, old(self)@.rem() + text@.len(), 2int,
    {
        let is_diff = self.place.is_diff;
        let mut sub = Parser::from_chars(text, no_items::<String>(), is_diff);
        let base_dir = parent_path(&path);
        put(&mut self.st.include_stack, canonical);
        std::mem::swap(&mut self.sig, &mut sub.sig);
        std::mem::swap(&mut self.st, &mut sub.st);
        sub.place = FilePlace { is_diff, base_dir, source_file: Some(path), staged_file: staged };
        let r = sub.theory_items_until_end();
        let result = match r {
            Err(e) => Err(e),
            Ok(v) => {
                sub.skip_ws();
                if sub.is_eof() {
                    Ok(v)
                } else {
                    Err(sub.err("unexpected trailing input in included file"))
                }
            },
        };
        std::mem::swap(&mut self.sig, &mut sub.sig);
        std::mem::swap(&mut self.st, &mut sub.st);
        let ghost open = self.st.include_stack.deep_view();
        let _ = self.st.include_stack.pop();
        assert(self.st.include_stack.deep_view() =~= open.drop_last());
        assert(open.drop_last() =~= old(self)@.st.include_stack);
        result
    }

    /// The items up to the end of the text, the word `end`, or the end of a branch.
    #[verifier::spinoff_prover]
    pub fn theory_items_until_end(&mut self) -> (r: Result<Vec<TheoryItem>, ParseError>)
        requires
            old(self).wf(),
            files_ok(old(self)@.st),
        ensures
            final(self).wf(),
            (outcome(r), final(self)@) == items(old(self)@, Seq::empty()),
            onward(old(self)@, r is Ok, final(self)@),
            r matches Ok(v) ==> all_follow(old(self)@, v.deep_view(), final(self)@),
        decreases room(old(self)@.st), old(self)@.rem(), 1int,
    {
        let mut all = no_items::<TheoryItem>();
        let ghost is_diff = old(self)@.place.is_diff;
        let ghost seen = old(self)@.st.seen;
        loop
            invariant
                self.wf(),
                is_diff == old(self)@.place.is_diff,
                seen == old(self)@.st.seen,
                files_ok(self@.st),
                onward(old(self)@, true, self@),
                all_follow(old(self)@, all.deep_view(), self@),
                items(self@, all.deep_view()) == items(old(self)@, Seq::empty()),
            decreases self@.rem(),
        {
            self.skip_ws();
            if self.is_eof() || self.at_keyword("end") {
                return Ok(all);
            }
            if let Some(d) = self.peek_directive() {
                if same(&d, "endif") || same(&d, "else") {
                    return Ok(all);
                }
                if same(&d, "include") {
                    let v = self.expand_include()?;
                    proof {
                        lemma_all_follow(is_diff, seen, all.deep_view(), v.deep_view());
                    }
                    put_all(&mut all, v);
                    continue;
                }
                if same(&d, "ifdef") {
                    let v = self.expand_ifdef()?;
                    proof {
                        lemma_all_follow(is_diff, seen, all.deep_view(), v.deep_view());
                    }
                    put_all(&mut all, v);
                    continue;
                }
            }
            let x = self.item_here()?;
            let ghost before = all.deep_view();
            proof {
                lemma_all_follow(is_diff, seen, before, seq![x.deep_view()]);
                lemma_one_follows(
                    is_diff,
                    all_noted(is_diff, seen, before),
                    x.deep_view(),
                );
            }
            put(&mut all, x);
            assert(all.deep_view() =~= before + seq![x.deep_view()]);
        }
    }

    #[verifier::spinoff_prover]
    fn theory_configuration(&mut self) -> (r: Result<Option<String>, ParseError>)
        requires
            old(self).wf(),
        ensures
            final(self).wf(),
            (outcome(r), final(self)@) == configuration(old(self)@),
            old(self)@.past(final(self)@),
    {
        proof {
            reveal(configuration);
        }
        if self.try_kw("configuration") {
            self.require_punct(":")?;
            let c = self.string_literal()?;
            self.require_kw("begin")?;
            return Ok(Some(c));
        }
        if !self.try_kw("begin") {
            return Err(self.err_expect(labels1("configuration or begin")));
        }
        Ok(None)
    }

    /// A theory, up to its `end`.
    #[verifier::spinoff_prover]
    pub fn theory(&mut self) -> (r: Result<Theory, ParseError>)
        requires
            old(self).wf(),
            files_ok(old(self)@.st),
        ensures
            final(self).wf(),
            (outcome(r), final(self)@) == theory(old(self)@),
            r is Ok ==> exists|w: PS| #[trigger]
                w.kw("end"@) == (true, final(self)@) && w.past(final(self)@),
            onward(old(self)@, r is Ok, final(self)@),
            r matches Ok(t) ==> t.is_diff == old(self)@.place.is_diff && all_follow(
                old(self)@,
                t.items.deep_view(),
                final(self)@,
            ),
    {
        proof {
            reveal(theory);
        }
        self.skip_ws();
        self.require_kw("theory")?;
        let name = self.ident()?;
        let configuration = self.theory_configuration()?;
        let items = self.theory_items_until_end()?;
        let ghost w = self@;
        if !self.try_kw("end") {
            let ghost stopped = self@;
            let a = self.lay_aside();
            let e = self.item_position_error();
            self.take_up(a, Ghost(stopped));
            return Err(e);
        }
        assert(w.kw("end"@) == (true, self@) && w.past(self@));
        Ok(Theory { is_diff: self.place.is_diff, name, configuration, items })
    }
}

} // verus!
