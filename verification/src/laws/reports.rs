//! What reports on open proofs show.

use crate::json::{listed, optional, FieldM, JsonM};
use crate::proof_diagnostics::{
    all_rows, counts, entry_document, entry_of, lemma_rows, padded, place_line, report_document,
    report_of, section, state_lines, summary_document, theory_document, theory_rows,
    DiagnosticsTally, EntryM, FileM, LemmaM, OpenProofKind, ReportM, RowM, StateM, TheoryEntryM,
};
use vstd::prelude::*;

verus! {

/// The rows of a lemma are its open states, in their order, under its name.
pub proof fn law_rows_of_lemmas(l: LemmaM, i: int)
    requires
        0 <= i < l.states.len(),
    ensures
        lemma_rows(l).len() == l.states.len(),
        lemma_rows(l)[i].lemma == l.lemma,
        lemma_rows(l)[i].state == l.states[i],
{
}

/// The rows of a theory are those of its lemmas, one lemma behind the other,
/// and the rows of a run those of its theories.
pub proof fn law_rows_one_behind_the_other(ls: Seq<LemmaM>, l: LemmaM, files: Seq<Seq<LemmaM>>)
    ensures
        theory_rows(ls.push(l), ls.len() as int + 1) == theory_rows(ls, ls.len() as int)
            + lemma_rows(l),
        all_rows(files.push(ls), files.len() as int + 1) == all_rows(files, files.len() as int)
            + theory_rows(ls, ls.len() as int),
        theory_rows(ls, 0).len() == 0,
        all_rows(files, 0).len() == 0,
{
    lemma_theory_rows(ls, ls.push(l), ls.len() as int);
    lemma_all_rows(files, files.push(ls), files.len() as int);
}

proof fn lemma_theory_rows(a: Seq<LemmaM>, b: Seq<LemmaM>, n: int)
    requires
        n <= a.len() <= b.len(),
        forall|i: int| 0 <= i < a.len() ==> a[i] == b[i],
    ensures
        theory_rows(a, n) == theory_rows(b, n),
    decreases n,
{
    if n > 0 {
        lemma_theory_rows(a, b, n - 1);
    }
}

proof fn lemma_all_rows(a: Seq<Seq<LemmaM>>, b: Seq<Seq<LemmaM>>, n: int)
    requires
        n <= a.len() <= b.len(),
        forall|i: int| 0 <= i < a.len() ==> a[i] == b[i],
    ensures
        all_rows(a, n) == all_rows(b, n),
    decreases n,
{
    if n > 0 {
        lemma_all_rows(a, b, n - 1);
    }
}

/// A state that is added counts once, under its kind, and under no other.
pub proof fn law_states_count_once(
    rows: Seq<RowM>,
    r: RowM,
    a: DiagnosticsTally,
    b: DiagnosticsTally,
)
    requires
        counts(a, rows),
        counts(b, rows.push(r)),
    ensures
        b.open_proof_states == a.open_proof_states + 1,
        b.sorries == a.sorries + (if r.state.kind == OpenProofKind::Sorry {
            1int
        } else {
            0
        }),
        b.invalid_steps == a.invalid_steps + (if r.state.kind == OpenProofKind::InvalidStep {
            1int
        } else {
            0
        }),
        b.unhandled_cases == a.unhandled_cases + (if r.state.kind
            == OpenProofKind::UnhandledCase {
            1int
        } else {
            0
        }),
{
    assert(rows.push(r).drop_last() =~= rows);
}

/// Each kind of open state has a word of its own.
pub proof fn law_words_for_open_states(a: OpenProofKind, b: OpenProofKind)
    ensures
        a.word() == b.word() ==> a == b,
        a == OpenProofKind::Sorry ==> a.word() == "sorry"@,
        a == OpenProofKind::InvalidStep ==> a.word() == "invalid_step"@,
        a == OpenProofKind::UnhandledCase ==> a.word() == "unhandled_case"@,
{
    reveal_strlit("sorry");
    reveal_strlit("invalid_step");
    reveal_strlit("unhandled_case");
    assert("sorry"@.len() == 5 && "invalid_step"@.len() == 12 && "unhandled_case"@.len() == 14);
}

/// A text is padded with spaces up to the width, and longer texts stay.
pub proof fn law_padding(t: Seq<char>, width: int)
    ensures
        padded(t, width).len() >= t.len(),
        padded(t, width).len() >= width,
        t.len() >= width ==> padded(t, width) == t,
        t.len() < width ==> padded(t, width).len() == width,
        forall|i: int| 0 <= i < t.len() ==> #[trigger] padded(t, width)[i] == t[i],
        forall|i: int| t.len() <= i < padded(t, width).len() ==> #[trigger] padded(t, width)[i]
            == ' ',
    decreases width - t.len(),
{
    if t.len() < width {
        law_padding(t.push(' '), width);
        let p = padded(t.push(' '), width);
        assert forall|i: int| 0 <= i < t.len() implies #[trigger] padded(t, width)[i] == t[i] by {
            assert(p[i] == t.push(' ')[i]);
        }
        assert forall|i: int| t.len() <= i < padded(t, width).len() implies #[trigger] padded(
            t,
            width,
        )[i] == ' ' by {
            if i == t.len() {
                assert(p[i] == t.push(' ')[i]);
            }
        }
    }
}

/// A section is left out where it is empty; else its heading stands before its
/// values, which come in their order.
pub proof fn law_sections(heading: Seq<char>, values: Seq<Seq<char>>, i: int)
    ensures
        values.len() == 0 ==> section(heading, values).len() == 0,
        values.len() > 0 ==> section(heading, values).len() == values.len() + 1 && section(
            heading,
            values,
        )[0] == "    "@ + heading + ":"@,
        0 <= i < values.len() ==> section(heading, values)[i + 1] == "      "@ + values[i],
{
}

/// A state is shown by the line of its place, the method that was asked for,
/// and the sections of its formulas, its open goals and the methods that apply,
/// in this order.
pub proof fn law_lines_of_states(file: Seq<char>, lemma: Seq<char>, s: StateM)
    ensures
        ({
            let n = section("formulas"@, s.formulas);
            let g = section("open goals"@, s.open_goals);
            let m = section("applicable"@, s.applicable_methods);
            let v = state_lines(file, lemma, s);
            &&& v.len() >= 1 && v[0] == place_line(file, lemma, s)
            &&& s.requested_method is None ==> v == seq![place_line(file, lemma, s)] + n + g + m
            &&& s.requested_method matches Some(r) ==> v == seq![
                place_line(file, lemma, s),
                "    requested: "@ + r,
            ] + n + g + m
        }),
{
    let n = section("formulas"@, s.formulas);
    let g = section("open goals"@, s.open_goals);
    let m = section("applicable"@, s.applicable_methods);
    let v = state_lines(file, lemma, s);
    match s.requested_method {
        None => {
            assert(v =~= seq![place_line(file, lemma, s)] + n + g + m);
        },
        Some(r) => {
            assert(v =~= seq![place_line(file, lemma, s), "    requested: "@ + r] + n + g + m);
        },
    }
}

/// An entry of a report tells what its state holds, without a side.
pub proof fn law_entries_tell_their_states(r: RowM)
    ensures
        ({
            let e = entry_of(r);
            &&& e.lemma == r.lemma && e.side is None && e.path == r.state.path
            &&& e.kind == r.state.kind.word() && e.reason == r.state.reason
            &&& e.requested_method == r.state.requested_method && e.formulas == r.state.formulas
            &&& e.open_goals == r.state.open_goals && e.applicable_methods
                == r.state.applicable_methods
            &&& e.constraint_system == r.state.constraint_system
        }),
{
}

/// A report has an entry for each file, in their order, with the states of its
/// theory in it.
pub proof fn law_reports_tell_all_files(
    results: Seq<FileM>,
    files: Seq<Seq<LemmaM>>,
    t: DiagnosticsTally,
    i: int,
    j: int,
)
    requires
        0 <= i < results.len(),
    ensures
        ({
            let r = report_of(results, files, t);
            &&& r.schema_version == 1 && r.mode == "proof-diagnostics"@ && r.summary == t
            &&& r.theories.len() == results.len()
            &&& r.theories[i].input_file == results[i].in_file
            &&& r.theories[i].processing_time_ms == results[i].elapsed_ms
            &&& r.theories[i].wellformedness_warnings == results[i].wf_count
            &&& i >= files.len() ==> r.theories[i].diagnostics.len() == 0
            &&& i < files.len() ==> {
                let rows = theory_rows(files[i], files[i].len() as int);
                &&& r.theories[i].diagnostics.len() == rows.len()
                &&& 0 <= j < rows.len() ==> r.theories[i].diagnostics[j] == entry_of(rows[j])
            }
        }),
{
}

/// What stands under a key of an object, the first of them.
pub open spec fn under(j: JsonM, key: Seq<char>) -> Option<JsonM> {
    match j {
        JsonM::Object(fs) => first_field(fs, key, 0),
        _ => None,
    }
}

pub open spec fn first_field(fs: Seq<FieldM>, key: Seq<char>, i: int) -> Option<JsonM>
    decreases fs.len() - i,
{
    if i < 0 || i >= fs.len() {
        None
    } else if fs[i].key == key {
        Some(fs[i].value)
    } else {
        first_field(fs, key, i + 1)
    }
}

/// The summary of a report tells the numbers under their names.
pub proof fn law_summaries(t: DiagnosticsTally)
    ensures
        under(summary_document(t), "open_proof_states"@) == Some(
            JsonM::Number(t.open_proof_states as u64),
        ),
        under(summary_document(t), "invalid_steps"@) == Some(
            JsonM::Number(t.invalid_steps as u64),
        ),
        under(summary_document(t), "sorries"@) == Some(JsonM::Number(t.sorries as u64)),
        under(summary_document(t), "unhandled_cases"@) == Some(
            JsonM::Number(t.unhandled_cases as u64),
        ),
{
    reveal_with_fuel(first_field, 5);
    reveal_strlit("open_proof_states");
    reveal_strlit("invalid_steps");
    reveal_strlit("sorries");
    reveal_strlit("unhandled_cases");
    assert("open_proof_states"@.len() == 17 && "invalid_steps"@.len() == 13 && "sorries"@.len() == 7
        && "unhandled_cases"@.len() == 15);
}

/// An entry tells what it holds under the names of its parts.
pub proof fn law_documents_of_entries(e: EntryM)
    ensures
        under(entry_document(e), "lemma"@) == Some(JsonM::Text(e.lemma)),
        under(entry_document(e), "side"@) == Some(optional(e.side)),
        under(entry_document(e), "path"@) == Some(listed(e.path)),
        under(entry_document(e), "kind"@) == Some(JsonM::Text(e.kind)),
        under(entry_document(e), "reason"@) == Some(optional(e.reason)),
        under(entry_document(e), "requested_method"@) == Some(optional(e.requested_method)),
        under(entry_document(e), "formulas"@) == Some(listed(e.formulas)),
        under(entry_document(e), "open_goals"@) == Some(listed(e.open_goals)),
        under(entry_document(e), "applicable_methods"@) == Some(listed(e.applicable_methods)),
        under(entry_document(e), "constraint_system"@) == Some(JsonM::Text(e.constraint_system)),
{
    reveal_with_fuel(first_field, 11);
    reveal_strlit("lemma");
    reveal_strlit("side");
    reveal_strlit("path");
    reveal_strlit("kind");
    reveal_strlit("reason");
    reveal_strlit("requested_method");
    reveal_strlit("formulas");
    reveal_strlit("open_goals");
    reveal_strlit("applicable_methods");
    reveal_strlit("constraint_system");
    assert("lemma"@.len() == 5);
    assert("side"@.len() == 4);
    assert("path"@.len() == 4);
    assert("kind"@.len() == 4);
    assert("reason"@.len() == 6);
    assert("requested_method"@.len() == 16);
    assert("formulas"@.len() == 8);
    assert("open_goals"@.len() == 10);
    assert("applicable_methods"@.len() == 18);
    assert("constraint_system"@.len() == 17);
    assert("side"@[0] == 's' && "path"@[0] == 'p');
    assert("side"@[0] == 's' && "kind"@[0] == 'k');
    assert("path"@[0] == 'p' && "kind"@[0] == 'k');
}

/// A theory tells its file, its time, its warnings and its entries.
pub proof fn law_documents_of_theories(t: TheoryEntryM, i: int)
    requires
        0 <= i < t.diagnostics.len(),
    ensures
        under(theory_document(t), "input_file"@) == Some(JsonM::Text(t.input_file)),
        under(theory_document(t), "processing_time_seconds"@) == Some(JsonM::Thousandths(t.processing_time_ms)),
        under(theory_document(t), "wellformedness_warnings"@) == Some(JsonM::Number(t.wellformedness_warnings as u64)),
        under(theory_document(t), "diagnostics"@) matches Some(JsonM::List(v)) && v.len()
            == t.diagnostics.len() && v[i] == entry_document(t.diagnostics[i]),
{
    reveal_with_fuel(first_field, 5);
    reveal_strlit("input_file");
    reveal_strlit("processing_time_seconds");
    reveal_strlit("wellformedness_warnings");
    reveal_strlit("diagnostics");
    assert("input_file"@.len() == 10);
    assert("processing_time_seconds"@.len() == 23);
    assert("wellformedness_warnings"@.len() == 23);
    assert("diagnostics"@.len() == 11);
    assert("processing_time_seconds"@[0] == 'p' && "wellformedness_warnings"@[0] == 'w');
}

/// A report tells its version, its mode, its summary and its theories.
pub proof fn law_documents_of_reports(r: ReportM, i: int)
    requires
        0 <= i < r.theories.len(),
    ensures
        under(report_document(r), "schema_version"@) == Some(JsonM::Number(r.schema_version)),
        under(report_document(r), "mode"@) == Some(JsonM::Text(r.mode)),
        under(report_document(r), "summary"@) == Some(summary_document(r.summary)),
        under(report_document(r), "theories"@) matches Some(JsonM::List(v)) && v.len()
            == r.theories.len() && v[i] == theory_document(r.theories[i]),
{
    reveal_with_fuel(first_field, 5);
    reveal_strlit("schema_version");
    reveal_strlit("mode");
    reveal_strlit("summary");
    reveal_strlit("theories");
    assert("schema_version"@.len() == 14);
    assert("mode"@.len() == 4);
    assert("summary"@.len() == 7);
    assert("theories"@.len() == 8);
}

/// A text that may be missing is shown as a text, or as nothing.
pub proof fn law_optional_texts(s: Option<Seq<char>>)
    ensures
        s matches Some(t) ==> optional(s) == JsonM::Text(t),
        s is None ==> optional(s) == JsonM::Null,
{
}

} // verus!
