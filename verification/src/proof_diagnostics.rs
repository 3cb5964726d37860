//! What the stored proofs of theories leave open: counts, console lines and
//! the report.

use crate::json::{
    list, listed, object, optional, optional_text, put_field, text, texts, Field, FieldM, Json, JsonM,
};
use crate::model::{no_items, one_item, put, put_all};
use crate::text::{decimal, join, joined, to_decimal};
use crate::values::{copy_text_opt, copy_texts};
use vstd::prelude::*;

verus! {

/// Why a proof state is open.
#[derive(Debug, Clone, Copy, PartialEq, Eq, Structural)]
pub enum OpenProofKind {
    Sorry,
    InvalidStep,
    UnhandledCase,
}

impl OpenProofKind {
    pub open spec fn word(self) -> Seq<char> {
        match self {
            OpenProofKind::Sorry => "sorry"@,
            OpenProofKind::InvalidStep => "invalid_step"@,
            OpenProofKind::UnhandledCase => "unhandled_case"@,
        }
    }

    /// The word for the kind.
    pub fn text(&self) -> (s: &'static str)
        ensures
            s@ == self.word(),
    {
        match self {
            OpenProofKind::Sorry => "sorry",
            OpenProofKind::InvalidStep => "invalid_step",
            OpenProofKind::UnhandledCase => "unhandled_case",
        }
    }
}

/// A proof state that a stored proof leaves open.
#[derive(Debug, Clone)]
pub struct OpenProofState {
    /// The names of the cases that lead to it.
    pub path: Vec<String>,
    pub kind: OpenProofKind,
    pub reason: Option<String>,
    pub requested_method: Option<String>,
    pub formulas: Vec<String>,
    pub open_goals: Vec<String>,
    pub applicable_methods: Vec<String>,
    pub constraint_system: String,
}

pub struct StateM {
    pub path: Seq<Seq<char>>,
    pub kind: OpenProofKind,
    pub reason: Option<Seq<char>>,
    pub requested_method: Option<Seq<char>>,
    pub formulas: Seq<Seq<char>>,
    pub open_goals: Seq<Seq<char>>,
    pub applicable_methods: Seq<Seq<char>>,
    pub constraint_system: Seq<char>,
}

impl DeepView for OpenProofState {
    type V = StateM;

    open spec fn deep_view(&self) -> StateM {
        StateM {
            path: self.path.deep_view(),
            kind: self.kind,
            reason: self.reason.deep_view(),
            requested_method: self.requested_method.deep_view(),
            formulas: self.formulas.deep_view(),
            open_goals: self.open_goals.deep_view(),
            applicable_methods: self.applicable_methods.deep_view(),
            constraint_system: self.constraint_system@,
        }
    }
}

/// The open states of a lemma.
#[derive(Debug, Clone)]
pub struct LemmaDiagnostics {
    pub lemma: String,
    pub states: Vec<OpenProofState>,
}

pub struct LemmaM {
    pub lemma: Seq<char>,
    pub states: Seq<StateM>,
}

impl DeepView for LemmaDiagnostics {
    type V = LemmaM;

    open spec fn deep_view(&self) -> LemmaM {
        LemmaM { lemma: self.lemma@, states: self.states.deep_view() }
    }
}

/// The open states of a theory, by lemma, in the order of the lemmas.
pub type TheoryDiagnostics = Vec<LemmaDiagnostics>;

/// How many states are open, in all and of each kind.
#[derive(Debug, Clone, Copy, PartialEq, Eq, Structural)]
pub struct DiagnosticsTally {
    pub open_proof_states: usize,
    pub invalid_steps: usize,
    pub sorries: usize,
    pub unhandled_cases: usize,
}

/// An open state, and its lemma.
pub struct RowM {
    pub lemma: Seq<char>,
    pub state: StateM,
}

/// The open states of a lemma, as rows.
pub open spec fn lemma_rows(l: LemmaM) -> Seq<RowM> {
    l.states.map_values(|s: StateM| RowM { lemma: l.lemma, state: s })
}

/// The open states of the first `n` lemmas, as rows.
pub open spec fn theory_rows(ls: Seq<LemmaM>, n: int) -> Seq<RowM>
    decreases n,
{
    if n <= 0 {
        Seq::empty()
    } else {
        theory_rows(ls, n - 1) + lemma_rows(ls[n - 1])
    }
}

/// The open states of the first `n` theories, as rows.
pub open spec fn all_rows(files: Seq<Seq<LemmaM>>, n: int) -> Seq<RowM>
    decreases n,
{
    if n <= 0 {
        Seq::empty()
    } else {
        all_rows(files, n - 1) + theory_rows(files[n - 1], files[n - 1].len() as int)
    }
}

/// How many of the rows are of the kind.
pub open spec fn count_of(rows: Seq<RowM>, kind: OpenProofKind) -> int
    decreases rows.len(),
{
    if rows.len() == 0 {
        0
    } else {
        count_of(rows.drop_last(), kind) + (if rows.last().state.kind == kind {
            1int
        } else {
            0int
        })
    }
}

/// The tally of the rows.
pub open spec fn counts(t: DiagnosticsTally, rows: Seq<RowM>) -> bool {
    &&& t.open_proof_states == rows.len()
    &&& t.invalid_steps == count_of(rows, OpenProofKind::InvalidStep)
    &&& t.sorries == count_of(rows, OpenProofKind::Sorry)
    &&& t.unhandled_cases == count_of(rows, OpenProofKind::UnhandledCase)
}

/// Each open state is of one of the three kinds.
pub proof fn law_counts_add_up(rows: Seq<RowM>)
    ensures
        count_of(rows, OpenProofKind::InvalidStep) + count_of(rows, OpenProofKind::Sorry)
            + count_of(rows, OpenProofKind::UnhandledCase) == rows.len(),
        0 <= count_of(rows, OpenProofKind::InvalidStep),
        0 <= count_of(rows, OpenProofKind::Sorry),
        0 <= count_of(rows, OpenProofKind::UnhandledCase),
    decreases rows.len(),
{
    if rows.len() > 0 {
        law_counts_add_up(rows.drop_last());
    }
}

/// The theories before the `n`th have no more rows than all.
proof fn lemma_rows_grow(files: Seq<Seq<LemmaM>>, n: int, m: int)
    requires
        0 <= n <= m <= files.len(),
    ensures
        all_rows(files, n).len() <= all_rows(files, m).len(),
    decreases m - n,
{
    if n < m {
        lemma_rows_grow(files, n, m - 1);
    }
}

proof fn lemma_theory_rows_grow(ls: Seq<LemmaM>, n: int, m: int)
    requires
        0 <= n <= m <= ls.len(),
    ensures
        theory_rows(ls, n).len() <= theory_rows(ls, m).len(),
    decreases m - n,
{
    if n < m {
        lemma_theory_rows_grow(ls, n, m - 1);
    }
}

fn tallied(
    t: DiagnosticsTally,
    kind: OpenProofKind,
    Ghost(rows): Ghost<Seq<RowM>>,
    Ghost(row): Ghost<RowM>,
) -> (r: DiagnosticsTally)
    requires
        counts(t, rows),
        rows.len() < usize::MAX,
        row.state.kind == kind,
    ensures
        counts(r, rows.push(row)),
{
    proof {
        law_counts_add_up(rows);
        assert(rows.push(row).drop_last() =~= rows);
    }
    let mut r = t;
    r.open_proof_states = r.open_proof_states + 1;
    match kind {
        OpenProofKind::InvalidStep => {
            r.invalid_steps = r.invalid_steps + 1;
        },
        OpenProofKind::Sorry => {
            r.sorries = r.sorries + 1;
        },
        OpenProofKind::UnhandledCase => {
            r.unhandled_cases = r.unhandled_cases + 1;
        },
    }
    r
}

/// Counts the open states of all theories.
pub fn tally(files: &[TheoryDiagnostics]) -> (t: DiagnosticsTally)
    requires
        all_rows(files.deep_view(), files@.len() as int).len() <= usize::MAX,
    ensures
        counts(t, all_rows(files.deep_view(), files@.len() as int)),
{
    let ghost fs = files.deep_view();
    let mut t = DiagnosticsTally {
        open_proof_states: 0,
        invalid_steps: 0,
        sorries: 0,
        unhandled_cases: 0,
    };
    let mut i: usize = 0;
    while i < files.len()
        invariant
            i <= files@.len(),
            fs == files.deep_view(),
            all_rows(fs, files@.len() as int).len() <= usize::MAX,
            counts(t, all_rows(fs, i as int)),
        decreases files@.len() - i,
    {
        let theory = &files[i];
        let ghost ls = theory.deep_view();
        let ghost before = all_rows(fs, i as int);
        proof {
            assert(fs[i as int] == ls);
            lemma_rows_grow(fs, i + 1, files@.len() as int);
        }
        let mut k: usize = 0;
        assert(before + theory_rows(ls, 0) =~= before);
        while k < theory.len()
            invariant
                k <= theory@.len(),
                ls == theory.deep_view(),
                before.len() + theory_rows(ls, ls.len() as int).len() <= usize::MAX,
                counts(t, before + theory_rows(ls, k as int)),
            decreases theory@.len() - k,
        {
            let l = &theory[k];
            let ghost sofar = before + theory_rows(ls, k as int);
            let ghost rows = lemma_rows(l.deep_view());
            proof {
                assert(ls[k as int] == l.deep_view());
                lemma_theory_rows_grow(ls, k + 1, ls.len() as int);
            }
            let mut j: usize = 0;
            assert(sofar + rows.take(0) =~= sofar);
            while j < l.states.len()
                invariant
                    j <= l.states@.len(),
                    rows == lemma_rows(l.deep_view()),
                    sofar.len() + rows.len() <= usize::MAX,
                    counts(t, sofar + rows.take(j as int)),
                decreases l.states@.len() - j,
            {
                let ghost now = sofar + rows.take(j as int);
                t = tallied(t, l.states[j].kind, Ghost(now), Ghost(rows[j as int]));
                j = j + 1;
                assert(sofar + rows.take(j as int) =~= now.push(rows[j - 1]));
            }
            assert(rows.take(j as int) =~= rows);
            k = k + 1;
            assert(before + theory_rows(ls, k as int) =~= sofar + rows);
        }
        i = i + 1;
    }
    t
}

proof fn lemma_counts_join(xs: Seq<RowM>, ys: Seq<RowM>, kind: OpenProofKind)
    ensures
        count_of(xs + ys, kind) == count_of(xs, kind) + count_of(ys, kind),
    decreases ys.len(),
{
    if ys.len() == 0 {
        assert(xs + ys =~= xs);
    } else {
        assert((xs + ys).drop_last() =~= xs + ys.drop_last());
        lemma_counts_join(xs, ys.drop_last(), kind);
    }
}

proof fn lemma_rows_join(xs: Seq<Seq<LemmaM>>, ys: Seq<Seq<LemmaM>>, n: int)
    requires
        0 <= n <= ys.len(),
    ensures
        all_rows(xs + ys, xs.len() + n) == all_rows(xs, xs.len() as int) + all_rows(ys, n),
    decreases n,
{
    if n == 0 {
        lemma_rows_front(xs, ys, xs.len() as int);
        assert(all_rows(xs, xs.len() as int) + all_rows(ys, 0) =~= all_rows(xs, xs.len() as int));
    } else {
        lemma_rows_join(xs, ys, n - 1);
        assert((xs + ys)[xs.len() + n - 1] == ys[n - 1]);
        assert(all_rows(xs + ys, xs.len() + n) =~= all_rows(xs, xs.len() as int) + all_rows(ys, n));
    }
}

proof fn lemma_rows_front(xs: Seq<Seq<LemmaM>>, ys: Seq<Seq<LemmaM>>, n: int)
    requires
        0 <= n <= xs.len(),
    ensures
        all_rows(xs + ys, n) == all_rows(xs, n),
    decreases n,
{
    if n > 0 {
        lemma_rows_front(xs, ys, n - 1);
        assert((xs + ys)[n - 1] == xs[n - 1]);
    }
}

/// The tally of theories that are joined is the sum of their tallies, in all
/// and of each kind; that of no theory is zero.
pub proof fn law_tallies_add_up(
    xs: Seq<Seq<LemmaM>>,
    ys: Seq<Seq<LemmaM>>,
    a: DiagnosticsTally,
    b: DiagnosticsTally,
    c: DiagnosticsTally,
    none: DiagnosticsTally,
)
    requires
        counts(a, all_rows(xs, xs.len() as int)),
        counts(b, all_rows(ys, ys.len() as int)),
        counts(c, all_rows(xs + ys, (xs + ys).len() as int)),
        counts(none, all_rows(Seq::empty(), 0)),
    ensures
        c.open_proof_states == a.open_proof_states + b.open_proof_states,
        c.invalid_steps == a.invalid_steps + b.invalid_steps,
        c.sorries == a.sorries + b.sorries,
        c.unhandled_cases == a.unhandled_cases + b.unhandled_cases,
        none == (DiagnosticsTally {
            open_proof_states: 0,
            invalid_steps: 0,
            sorries: 0,
            unhandled_cases: 0,
        }),
{
    lemma_rows_join(xs, ys, ys.len() as int);
    let p = all_rows(xs, xs.len() as int);
    let q = all_rows(ys, ys.len() as int);
    lemma_counts_join(p, q, OpenProofKind::InvalidStep);
    lemma_counts_join(p, q, OpenProofKind::Sorry);
    lemma_counts_join(p, q, OpenProofKind::UnhandledCase);
}

/// The exit code of a run: 0 where every proof is complete, and 4 where a
/// state is open.
pub fn exit_code(t: &DiagnosticsTally) -> (n: i32)
    ensures
        n == (if t.open_proof_states > 0 {
            4i32
        } else {
            0i32
        }),
{
    if t.open_proof_states > 0 {
        4
    } else {
        0
    }
}

/// The line that sums up a run.
pub fn headline(t: &DiagnosticsTally) -> (s: String)
    ensures
        s@ == "proof diagnostics: "@ + decimal(t.open_proof_states as nat)
            + " open proof state(s)"@,
{
    let mut s = "proof diagnostics: ".to_string();
    let n = to_decimal(t.open_proof_states as u64);
    s.push_str(&n);
    s.push_str(" open proof state(s)");
    s
}

/// The text with spaces behind it up to the width.
pub open spec fn padded(t: Seq<char>, width: int) -> Seq<char>
    decreases width - t.len(),
{
    if t.len() < width {
        padded(t.push(' '), width)
    } else {
        t
    }
}

/// The line that says where an open state is.
pub open spec fn place_line(in_file: Seq<char>, lemma: Seq<char>, s: StateM) -> Seq<char> {
    "  "@ + padded(s.kind.word(), 15) + " "@ + in_file + " :: "@ + lemma + (if s.path.len() == 0 {
        Seq::empty()
    } else {
        " :: "@ + joined(s.path, "/"@)
    })
}

/// A heading and the values below it; nothing where there are none.
pub open spec fn section(heading: Seq<char>, values: Seq<Seq<char>>) -> Seq<Seq<char>> {
    if values.len() == 0 {
        Seq::empty()
    } else {
        seq!["    "@ + heading + ":"@] + values.map_values(|v: Seq<char>| "      "@ + v)
    }
}

/// The lines that show an open state. The constraint system is not shown.
pub open spec fn state_lines(in_file: Seq<char>, lemma: Seq<char>, s: StateM) -> Seq<Seq<char>> {
    seq![place_line(in_file, lemma, s)] + (match s.requested_method {
        Some(m) => seq!["    requested: "@ + m],
        None => Seq::empty(),
    }) + section("formulas"@, s.formulas) + section("open goals"@, s.open_goals) + section(
        "applicable"@,
        s.applicable_methods,
    )
}

fn pad(t: &str, width: usize) -> (r: String)
    ensures
        r@ == padded(t@, width as int),
{
    let mut n: usize = crate::text::chars_of(t).len();
    let mut r = t.to_string();
    while n < width
        invariant
            n == r@.len(),
            padded(r@, width as int) == padded(t@, width as int),
        decreases width - n,
    {
        r.push(' ');
        n = n + 1;
    }
    r
}

fn section_lines(heading: &str, values: &Vec<String>) -> (r: Vec<String>)
    ensures
        r.deep_view() == section(heading@, values.deep_view()),
{
    if values.len() == 0 {
        return no_items::<String>();
    }
    let mut h = "    ".to_string();
    h.push_str(heading);
    h.push_str(":");
    let ghost head = h@;
    let ghost all = values.deep_view().map_values(|v: Seq<char>| "      "@ + v);
    let mut r = one_item(h);
    let mut i: usize = 0;
    assert(r.deep_view() =~= seq![head] + all.take(0));
    while i < values.len()
        invariant
            i <= values@.len(),
            all == values.deep_view().map_values(|v: Seq<char>| "      "@ + v),
            r.deep_view() == seq![head] + all.take(i as int),
        decreases values@.len() - i,
    {
        let mut line = "      ".to_string();
        line.push_str(&values[i]);
        put(&mut r, line);
        i = i + 1;
        assert(r.deep_view() =~= seq![head] + all.take(i as int));
    }
    assert(all.take(values@.len() as int) =~= all);
    r
}

/// The lines that show an open state.
pub fn console_lines(in_file: &str, lemma: &str, state: &OpenProofState) -> (r: Vec<String>)
    ensures
        r.deep_view() == state_lines(in_file@, lemma@, state.deep_view()),
{
    let mut first = "  ".to_string();
    first.push_str(&pad(state.kind.text(), 15));
    first.push_str(" ");
    first.push_str(in_file);
    first.push_str(" :: ");
    first.push_str(lemma);
    if state.path.len() > 0 {
        first.push_str(" :: ");
        let path = join(&state.path, "/");
        first.push_str(&path);
    }
    let ghost s = state.deep_view();
    assert(first@ =~= place_line(in_file@, lemma@, s));
    let mut r = one_item(first);
    if let Some(m) = &state.requested_method {
        let mut line = "    requested: ".to_string();
        line.push_str(m);
        put(&mut r, line);
    }
    put_all(&mut r, section_lines("formulas", &state.formulas));
    put_all(&mut r, section_lines("open goals", &state.open_goals));
    put_all(&mut r, section_lines("applicable", &state.applicable_methods));
    assert(r.deep_view() =~= state_lines(in_file@, lemma@, s));
    r
}

/// What is known of a file that was read.
#[derive(Debug, Clone)]
pub struct FileResult {
    pub in_file: String,
    pub elapsed_ms: u64,
    pub wf_count: usize,
}

pub struct FileM {
    pub in_file: Seq<char>,
    pub elapsed_ms: u64,
    pub wf_count: usize,
}

impl DeepView for FileResult {
    type V = FileM;

    open spec fn deep_view(&self) -> FileM {
        FileM { in_file: self.in_file@, elapsed_ms: self.elapsed_ms, wf_count: self.wf_count }
    }
}

/// An open state in the report.
#[derive(Debug, Clone)]
pub struct DiagnosticEntry {
    pub lemma: String,
    /// The side of a diff theory; none elsewhere.
    pub side: Option<String>,
    pub path: Vec<String>,
    pub kind: String,
    pub reason: Option<String>,
    pub requested_method: Option<String>,
    pub formulas: Vec<String>,
    pub open_goals: Vec<String>,
    pub applicable_methods: Vec<String>,
    pub constraint_system: String,
}

pub struct EntryM {
    pub lemma: Seq<char>,
    pub side: Option<Seq<char>>,
    pub path: Seq<Seq<char>>,
    pub kind: Seq<char>,
    pub reason: Option<Seq<char>>,
    pub requested_method: Option<Seq<char>>,
    pub formulas: Seq<Seq<char>>,
    pub open_goals: Seq<Seq<char>>,
    pub applicable_methods: Seq<Seq<char>>,
    pub constraint_system: Seq<char>,
}

impl DeepView for DiagnosticEntry {
    type V = EntryM;

    open spec fn deep_view(&self) -> EntryM {
        EntryM {
            lemma: self.lemma@,
            side: self.side.deep_view(),
            path: self.path.deep_view(),
            kind: self.kind@,
            reason: self.reason.deep_view(),
            requested_method: self.requested_method.deep_view(),
            formulas: self.formulas.deep_view(),
            open_goals: self.open_goals.deep_view(),
            applicable_methods: self.applicable_methods.deep_view(),
            constraint_system: self.constraint_system@,
        }
    }
}

/// A theory in the report.
#[derive(Debug, Clone)]
pub struct TheoryEntry {
    pub input_file: String,
    /// Its processing time; the report gives it in seconds.
    pub processing_time_ms: u64,
    pub wellformedness_warnings: usize,
    pub diagnostics: Vec<DiagnosticEntry>,
}

pub struct TheoryEntryM {
    pub input_file: Seq<char>,
    pub processing_time_ms: u64,
    pub wellformedness_warnings: usize,
    pub diagnostics: Seq<EntryM>,
}

impl DeepView for TheoryEntry {
    type V = TheoryEntryM;

    open spec fn deep_view(&self) -> TheoryEntryM {
        TheoryEntryM {
            input_file: self.input_file@,
            processing_time_ms: self.processing_time_ms,
            wellformedness_warnings: self.wellformedness_warnings,
            diagnostics: self.diagnostics.deep_view(),
        }
    }
}

/// The report of a run.
#[derive(Debug, Clone)]
pub struct Report {
    pub schema_version: u64,
    pub mode: String,
    pub summary: DiagnosticsTally,
    pub theories: Vec<TheoryEntry>,
}

pub struct ReportM {
    pub schema_version: u64,
    pub mode: Seq<char>,
    pub summary: DiagnosticsTally,
    pub theories: Seq<TheoryEntryM>,
}

impl DeepView for Report {
    type V = ReportM;

    open spec fn deep_view(&self) -> ReportM {
        ReportM {
            schema_version: self.schema_version,
            mode: self.mode@,
            summary: self.summary,
            theories: self.theories.deep_view(),
        }
    }
}

/// The entry of an open state.
pub open spec fn entry_of(r: RowM) -> EntryM {
    EntryM {
        lemma: r.lemma,
        side: None,
        path: r.state.path,
        kind: r.state.kind.word(),
        reason: r.state.reason,
        requested_method: r.state.requested_method,
        formulas: r.state.formulas,
        open_goals: r.state.open_goals,
        applicable_methods: r.state.applicable_methods,
        constraint_system: r.state.constraint_system,
    }
}

/// The entry of the `i`th file, with the open states of the theory in it, if
/// they are known.
pub open spec fn theory_entry(file: FileM, files: Seq<Seq<LemmaM>>, i: int) -> TheoryEntryM {
    TheoryEntryM {
        input_file: file.in_file,
        processing_time_ms: file.elapsed_ms,
        wellformedness_warnings: file.wf_count,
        diagnostics: if i < files.len() {
            theory_rows(files[i], files[i].len() as int).map_values(|r: RowM| entry_of(r))
        } else {
            Seq::empty()
        },
    }
}

/// The report: an entry for each file, in order.
pub open spec fn report_of(
    results: Seq<FileM>,
    files: Seq<Seq<LemmaM>>,
    t: DiagnosticsTally,
) -> ReportM {
    ReportM {
        schema_version: 1,
        mode: "proof-diagnostics"@,
        summary: t,
        theories: Seq::new(results.len(), |i: int| theory_entry(results[i], files, i)),
    }
}

fn state_entry(lemma: &str, state: &OpenProofState) -> (e: DiagnosticEntry)
    ensures
        e.deep_view() == entry_of((RowM { lemma: lemma@, state: state.deep_view() })),
{
    DiagnosticEntry {
        lemma: lemma.to_string(),
        side: None,
        path: copy_texts(&state.path),
        kind: state.kind.text().to_string(),
        reason: copy_text_opt(&state.reason),
        requested_method: copy_text_opt(&state.requested_method),
        formulas: copy_texts(&state.formulas),
        open_goals: copy_texts(&state.open_goals),
        applicable_methods: copy_texts(&state.applicable_methods),
        constraint_system: state.constraint_system.clone(),
    }
}

fn entries(theory: &TheoryDiagnostics) -> (r: Vec<DiagnosticEntry>)
    ensures
        r.deep_view() == theory_rows(theory.deep_view(), theory@.len() as int).map_values(
            |r: RowM| entry_of(r),
        ),
{
    let ghost f = |r: RowM| entry_of(r);
    let ghost ls = theory.deep_view();
    let mut r = no_items::<DiagnosticEntry>();
    let mut k: usize = 0;
    assert(r.deep_view() =~= theory_rows(ls, 0).map_values(f));
    while k < theory.len()
        invariant
            k <= theory@.len(),
            ls == theory.deep_view(),
            f == |r: RowM| entry_of(r),
            r.deep_view() == theory_rows(ls, k as int).map_values(f),
        decreases theory@.len() - k,
    {
        let l = &theory[k];
        let ghost sofar = theory_rows(ls, k as int);
        let ghost rows = lemma_rows(l.deep_view());
        assert(ls[k as int] == l.deep_view());
        let mut j: usize = 0;
        assert(sofar + rows.take(0) =~= sofar);
        while j < l.states.len()
            invariant
                j <= l.states@.len(),
                rows == lemma_rows(l.deep_view()),
                f == |r: RowM| entry_of(r),
                r.deep_view() == (sofar + rows.take(j as int)).map_values(f),
            decreases l.states@.len() - j,
        {
            let e = state_entry(&l.lemma, &l.states[j]);
            proof {
                assert(rows[j as int] == (RowM {
                    lemma: l.lemma@,
                    state: l.states@[j as int].deep_view(),
                }));
            }
            put(&mut r, e);
            j = j + 1;
            assert(sofar + rows.take(j as int) =~= (sofar + rows.take(j - 1)).push(rows[j - 1]));
            assert(r.deep_view() =~= (sofar + rows.take(j as int)).map_values(f));
        }
        assert(rows.take(j as int) =~= rows);
        k = k + 1;
        assert(theory_rows(ls, k as int) =~= sofar + rows);
    }
    r
}

/// The report of a run. The theory of each file is the one at the same place.
pub fn report(
    file_results: &[FileResult],
    files: &[TheoryDiagnostics],
    t: &DiagnosticsTally,
) -> (r: Report)
    ensures
        r.deep_view() == report_of(file_results.deep_view(), files.deep_view(), *t),
{
    let ghost want = report_of(file_results.deep_view(), files.deep_view(), *t).theories;
    let mut theories = no_items::<TheoryEntry>();
    let mut i: usize = 0;
    assert(theories.deep_view() =~= want.take(0));
    while i < file_results.len()
        invariant
            i <= file_results@.len(),
            want == report_of(file_results.deep_view(), files.deep_view(), *t).theories,
            theories.deep_view() == want.take(i as int),
        decreases file_results@.len() - i,
    {
        let diagnostics = if i < files.len() {
            assert(files.deep_view()[i as int] == files@[i as int].deep_view());
            entries(&files[i])
        } else {
            no_items::<DiagnosticEntry>()
        };
        let x = TheoryEntry {
            input_file: file_results[i].in_file.clone(),
            processing_time_ms: file_results[i].elapsed_ms,
            wellformedness_warnings: file_results[i].wf_count,
            diagnostics,
        };
        proof {
            assert(file_results.deep_view()[i as int] == file_results@[i as int].deep_view());
            assert(x.deep_view() == want[i as int]);
        }
        put(&mut theories, x);
        i = i + 1;
        assert(theories.deep_view() =~= want.take(i as int));
    }
    assert(want.take(file_results@.len() as int) =~= want);
    Report { schema_version: 1, mode: "proof-diagnostics".to_string(), summary: *t, theories }
}

/// The field of that name.
pub open spec fn field(key: Seq<char>, value: JsonM) -> FieldM {
    FieldM { key, value }
}

/// The document of an open state.
pub open spec fn entry_document(e: EntryM) -> JsonM {
    JsonM::Object(
        seq![
            field("lemma"@, JsonM::Text(e.lemma)),
            field("side"@, optional(e.side)),
            field("path"@, listed(e.path)),
            field("kind"@, JsonM::Text(e.kind)),
            field("reason"@, optional(e.reason)),
            field("requested_method"@, optional(e.requested_method)),
            field("formulas"@, listed(e.formulas)),
            field("open_goals"@, listed(e.open_goals)),
            field("applicable_methods"@, listed(e.applicable_methods)),
            field("constraint_system"@, JsonM::Text(e.constraint_system)),
        ],
    )
}

/// The document of a theory.
pub open spec fn theory_document(t: TheoryEntryM) -> JsonM {
    JsonM::Object(
        seq![
            field("input_file"@, JsonM::Text(t.input_file)),
            field("processing_time_seconds"@, JsonM::Thousandths(t.processing_time_ms)),
            field(
                "wellformedness_warnings"@,
                JsonM::Number(t.wellformedness_warnings as u64),
            ),
            field(
                "diagnostics"@,
                JsonM::List(t.diagnostics.map_values(|e: EntryM| entry_document(e))),
            ),
        ],
    )
}

/// The document of a tally.
pub open spec fn summary_document(t: DiagnosticsTally) -> JsonM {
    JsonM::Object(
        seq![
            field("open_proof_states"@, JsonM::Number(t.open_proof_states as u64)),
            field("invalid_steps"@, JsonM::Number(t.invalid_steps as u64)),
            field("sorries"@, JsonM::Number(t.sorries as u64)),
            field("unhandled_cases"@, JsonM::Number(t.unhandled_cases as u64)),
        ],
    )
}

/// The document of a report.
pub open spec fn report_document(r: ReportM) -> JsonM {
    JsonM::Object(
        seq![
            field("schema_version"@, JsonM::Number(r.schema_version)),
            field("mode"@, JsonM::Text(r.mode)),
            field("summary"@, summary_document(r.summary)),
            field(
                "theories"@,
                JsonM::List(r.theories.map_values(|t: TheoryEntryM| theory_document(t))),
            ),
        ],
    )
}

#[verifier::spinoff_prover]
fn entry_json(e: &DiagnosticEntry) -> (j: Json)
    ensures
        j.deep_view() == entry_document(e.deep_view()),
{
    let mut v = no_items::<Field>();
    put_field(&mut v, "lemma", text(&e.lemma));
    put_field(&mut v, "side", optional_text(&e.side));
    put_field(&mut v, "path", texts(&e.path));
    put_field(&mut v, "kind", text(&e.kind));
    put_field(&mut v, "reason", optional_text(&e.reason));
    put_field(&mut v, "requested_method", optional_text(&e.requested_method));
    put_field(&mut v, "formulas", texts(&e.formulas));
    put_field(&mut v, "open_goals", texts(&e.open_goals));
    put_field(&mut v, "applicable_methods", texts(&e.applicable_methods));
    put_field(&mut v, "constraint_system", text(&e.constraint_system));
    let ghost want = entry_document(e.deep_view())->Object_0;
    assert(v.deep_view() =~= want);
    object(v)
}

fn entries_json(es: &Vec<DiagnosticEntry>) -> (j: Json)
    ensures
        j.deep_view() == JsonM::List(
            es.deep_view().map_values(|e: EntryM| entry_document(e)),
        ),
{
    let ghost all = es.deep_view().map_values(|e: EntryM| entry_document(e));
    let mut r = no_items::<Json>();
    let mut i: usize = 0;
    assert(r.deep_view() =~= all.take(0));
    while i < es.len()
        invariant
            i <= es@.len(),
            all == es.deep_view().map_values(|e: EntryM| entry_document(e)),
            r.deep_view() == all.take(i as int),
        decreases es@.len() - i,
    {
        put(&mut r, entry_json(&es[i]));
        assert(es.deep_view()[i as int] == es@[i as int].deep_view());
        i = i + 1;
        assert(r.deep_view() =~= all.take(i as int));
    }
    assert(all.take(es@.len() as int) =~= all);
    list(r)
}

fn theory_json(t: &TheoryEntry) -> (j: Json)
    ensures
        j.deep_view() == theory_document(t.deep_view()),
{
    let mut v = no_items::<Field>();
    put_field(&mut v, "input_file", text(&t.input_file));
    put_field(&mut v, "processing_time_seconds", Json::Thousandths(t.processing_time_ms));
    put_field(
        &mut v,
        "wellformedness_warnings",
        Json::Number(t.wellformedness_warnings as u64),
    );
    put_field(&mut v, "diagnostics", entries_json(&t.diagnostics));
    let ghost want = theory_document(t.deep_view())->Object_0;
    assert(v.deep_view() =~= want);
    object(v)
}

fn summary_json(t: &DiagnosticsTally) -> (j: Json)
    ensures
        j.deep_view() == summary_document(*t),
{
    let mut v = no_items::<Field>();
    put_field(&mut v, "open_proof_states", Json::Number(t.open_proof_states as u64));
    put_field(&mut v, "invalid_steps", Json::Number(t.invalid_steps as u64));
    put_field(&mut v, "sorries", Json::Number(t.sorries as u64));
    put_field(&mut v, "unhandled_cases", Json::Number(t.unhandled_cases as u64));
    let ghost want = summary_document(*t)->Object_0;
    assert(v.deep_view() =~= want);
    object(v)
}

/// The document that a report is written as.
pub fn document(r: &Report) -> (j: Json)
    ensures
        j.deep_view() == report_document(r.deep_view()),
{
    let ghost all = r.theories.deep_view().map_values(|t: TheoryEntryM| theory_document(t));
    let mut theories = no_items::<Json>();
    let mut i: usize = 0;
    assert(theories.deep_view() =~= all.take(0));
    while i < r.theories.len()
        invariant
            i <= r.theories@.len(),
            all == r.theories.deep_view().map_values(|t: TheoryEntryM| theory_document(t)),
            theories.deep_view() == all.take(i as int),
        decreases r.theories@.len() - i,
    {
        put(&mut theories, theory_json(&r.theories[i]));
        assert(r.theories.deep_view()[i as int] == r.theories@[i as int].deep_view());
        i = i + 1;
        assert(theories.deep_view() =~= all.take(i as int));
    }
    assert(all.take(r.theories@.len() as int) =~= all);
    let mut v = no_items::<Field>();
    put_field(&mut v, "schema_version", Json::Number(r.schema_version));
    put_field(&mut v, "mode", text(&r.mode));
    put_field(&mut v, "summary", summary_json(&r.summary));
    put_field(&mut v, "theories", list(theories));
    let ghost want = report_document(r.deep_view())->Object_0;
    assert(v.deep_view() =~= want);
    object(v)
}

} // verus!
