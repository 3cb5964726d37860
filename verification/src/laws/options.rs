//! What the options of the command line mean.

use crate::cli::{
    batch_flag, image_of, kind_named, loaded, options_of, pattern_matches, pool_of, raws_of,
    refused, selects, selects_all, stop_of, style_of, switched, text_of, u16_of, u32_of, u63_of,
    with_files, with_variants, with_web, ArgsM, ErrorKind, ImageFormat, PartialEval, StopOnTrace,
    Subcommand,
};
use crate::command::{
    all_digits, number_upto, positive_text, unsigned_part, FoundM, RefusalM, ValuesM,
};
use crate::text::upper_text;
use crate::tokens::number_value;
use vstd::prelude::*;

verus! {

/// The values of a flag are those under its name, the first of them where the
/// name comes again; a flag that does not come has none.
pub proof fn law_values_of_flags(vs: Seq<ValuesM>, id: Seq<char>, k: int)
    requires
        0 <= k <= vs.len(),
        forall|j: int| 0 <= j < k ==> (#[trigger] vs[j]).id != id,
    ensures
        k < vs.len() && vs[k].id == id ==> raws_of(vs, id, 0) == vs[k].raws,
        k == vs.len() ==> raws_of(vs, id, 0).len() == 0 && text_of(vs, id) is None && !switched(
            vs,
            id,
        ),
        k < vs.len() && vs[k].id == id && vs[k].raws.len() > 0 ==> text_of(vs, id) == Some(
            vs[k].raws[0],
        ),
        k < vs.len() && vs[k].id == id && vs[k].raws.len() == 0 ==> text_of(vs, id) is None,
        k < vs.len() && vs[k].id == id ==> (switched(vs, id) <==> vs[k].raws.len() > 0
            && vs[k].raws[0] == "true"@),
{
    reveal(text_of);
    reveal(switched);
    lemma_values(vs, id, 0, k);
}

proof fn lemma_values(vs: Seq<ValuesM>, id: Seq<char>, i: int, k: int)
    requires
        0 <= i <= k <= vs.len(),
        forall|j: int| 0 <= j < k ==> (#[trigger] vs[j]).id != id,
    ensures
        k < vs.len() && vs[k].id == id ==> raws_of(vs, id, i) == vs[k].raws,
        k == vs.len() ==> raws_of(vs, id, i).len() == 0,
    decreases k - i,
{
    if i < k {
        lemma_values(vs, id, i + 1, k);
    }
}

/// A number is read where a text is decimal digits, with a sign or without, and
/// its value lies between zero and the greatest that is allowed.
pub proof fn law_numbers_on_the_command_line(t: Seq<char>, max: int)
    requires
        t.len() > 0,
        t[0] != '+',
        t[0] != '-',
    ensures
        number_upto(t, max) matches Some(n) ==> n == number_value(t, 0, t.len() as int) && n <= max,
        (forall|i: int| 0 <= i < t.len() ==> '0' <= #[trigger] t[i] <= '9') && number_value(
            t,
            0,
            t.len() as int,
        ) <= max ==> number_upto(t, max) is Some,
        number_upto(t, max) is Some ==> forall|i: int|
            0 <= i < t.len() ==> '0' <= #[trigger] t[i] <= '9',
{
    assert(unsigned_part(t) == t);
}

/// A number of processes is one at least.
pub proof fn law_pools(t: Seq<char>)
    ensures
        positive_text(t) matches Ok(n) ==> n >= 1 && number_upto(t, usize::MAX as int) == Some(
            n as int,
        ),
        number_upto(t, usize::MAX as int) is None ==> positive_text(t) is Err,
        number_upto(t, usize::MAX as int) == Some(0int) ==> positive_text(t) is Err,
        number_upto(t, usize::MAX as int) is Some && number_upto(t, usize::MAX as int)->0 > 0
            ==> positive_text(t) is Ok,
{
    lemma_number_range(t, usize::MAX as int);
}

/// Numbers among the values are those of the first value, as far as they are in
/// the range of the option.
pub proof fn law_numbers_among_values(vs: Seq<ValuesM>, id: Seq<char>)
    ensures
        text_of(vs, id) is None ==> u16_of(vs, id) is None && u32_of(vs, id) is None && u63_of(
            vs,
            id,
        ) is None && pool_of(vs, id) is None,
        text_of(vs, id) matches Some(t) ==> {
            &&& (u32_of(vs, id) is Some <==> number_upto(t, u32::MAX as int) is Some)
            &&& (u16_of(vs, id) is Some <==> number_upto(t, u16::MAX as int) is Some)
            &&& (u63_of(vs, id) is Some <==> number_upto(t, i64::MAX as int) is Some)
            &&& (pool_of(vs, id) is Some <==> positive_text(t) is Ok)
            &&& (pool_of(vs, id) matches Some(n) ==> positive_text(t) == Ok::<usize, Seq<char>>(n))
        },
{
    reveal(u16_of);
    reveal(u32_of);
    reveal(u63_of);
    reveal(pool_of);
}

proof fn lemma_number_range(t: Seq<char>, max: int)
    ensures
        number_upto(t, max) matches Some(n) ==> 0 <= n <= max,
{
    let d = unsigned_part(t);
    if all_digits(d) {
        lemma_not_negative(d, d.len() as int);
    }
}

proof fn lemma_not_negative(d: Seq<char>, n: int)
    requires
        all_digits(d),
        n <= d.len(),
    ensures
        number_value(d, 0, n) >= 0,
    decreases n,
{
    if n > 0 {
        lemma_not_negative(d, n - 1);
        assert('0' <= d[n - 1] <= '9');
    }
}

/// A number that is among the values is the number that is written.
pub proof fn law_numbers_are_kept(vs: Seq<ValuesM>, id: Seq<char>, t: Seq<char>)
    requires
        text_of(vs, id) == Some(t),
    ensures
        u32_of(vs, id) matches Some(n) ==> number_upto(t, u32::MAX as int) == Some(n as int),
        u16_of(vs, id) matches Some(n) ==> number_upto(t, u16::MAX as int) == Some(n as int),
        u63_of(vs, id) matches Some(n) ==> number_upto(t, i64::MAX as int) == Some(n as int),
{
    reveal(u16_of);
    reveal(u32_of);
    reveal(u63_of);
    lemma_number_range(t, u32::MAX as int);
    lemma_number_range(t, u16::MAX as int);
    lemma_number_range(t, i64::MAX as int);
}

/// The words for how a search stops, without regard to case.
pub proof fn law_words_for_stopping(vs: Seq<ValuesM>, id: Seq<char>)
    ensures
        text_of(vs, id) is None ==> stop_of(vs, id) is None,
        text_of(vs, id) matches Some(t) ==> {
            &&& stop_of(vs, id) == Some(StopOnTrace::Dfs) <==> upper_text(t) == "DFS"@
            &&& stop_of(vs, id) == Some(StopOnTrace::Bfs) <==> upper_text(t) == "BFS"@
            &&& stop_of(vs, id) == Some(StopOnTrace::SeqDfs) <==> upper_text(t) == "SEQDFS"@
            &&& stop_of(vs, id) == Some(StopOnTrace::Sorry) <==> upper_text(t) == "SORRY"@
            &&& stop_of(vs, id) == Some(StopOnTrace::Never) <==> upper_text(t) == "NONE"@
        },
{
    reveal(stop_of);
    reveal_strlit("DFS");
    reveal_strlit("BFS");
    reveal_strlit("SEQDFS");
    reveal_strlit("SORRY");
    reveal_strlit("NONE");
    assert("DFS"@.len() == 3 && "BFS"@.len() == 3 && "SEQDFS"@.len() == 6 && "SORRY"@.len() == 5
        && "NONE"@.len() == 4 && "DFS"@[0] == 'D' && "BFS"@[0] == 'B');
}

/// The words for partial evaluation and for images, without regard to case.
pub proof fn law_words_for_styles(vs: Seq<ValuesM>, id: Seq<char>)
    ensures
        text_of(vs, id) is None ==> style_of(vs, id) is None && image_of(vs, id) is None,
        text_of(vs, id) matches Some(t) ==> {
            &&& style_of(vs, id) == Some(PartialEval::Summary) <==> upper_text(t) == "SUMMARY"@
            &&& style_of(vs, id) == Some(PartialEval::Verbose) <==> upper_text(t) == "VERBOSE"@
            &&& image_of(vs, id) == Some(ImageFormat::Png) <==> upper_text(t) == "PNG"@
            &&& image_of(vs, id) == Some(ImageFormat::Svg) <==> upper_text(t) == "SVG"@
        },
{
    reveal(style_of);
    reveal(image_of);
    reveal_strlit("SUMMARY");
    reveal_strlit("VERBOSE");
    reveal_strlit("PNG");
    reveal_strlit("SVG");
    assert("SUMMARY"@[0] == 'S' && "VERBOSE"@[0] == 'V' && "PNG"@[0] == 'P' && "SVG"@[0] == 'S');
}

/// Each option holds the values of its own flag.
pub proof fn law_options_hold_their_values(vs: Seq<ValuesM>)
    ensures
        ({
            let a = loaded(vs);
            &&& a.stop_on_trace == stop_of(vs, "stop_on_trace"@)
            &&& a.bound == u32_of(vs, "bound"@) && a.lemma_timeout == u32_of(vs, "lemma_timeout"@)
            &&& a.without_rule == raws_of(vs, "without_rule"@, 0)
            &&& a.without_restriction == raws_of(vs, "without_restriction"@, 0)
            &&& a.heuristic == text_of(vs, "heuristic"@)
            &&& a.partial_evaluation == style_of(vs, "partial_evaluation"@)
            &&& a.defines == raws_of(vs, "defines"@, 0)
            &&& a.diff == switched(vs, "diff"@) && a.quit_on_warning == switched(
                vs,
                "quit_on_warning"@,
            )
            &&& a.no_ndc == switched(vs, "no_ndc"@) && a.auto_sources == switched(
                vs,
                "auto_sources"@,
            )
            &&& a.oracle_name == text_of(vs, "oracle_name"@) && a.oracle_only == switched(
                vs,
                "oracle_only"@,
            )
            &&& a.quiet == switched(vs, "quiet"@) && a.verbose == switched(vs, "verbose"@)
            &&& a.open_chains == u63_of(vs, "open_chains"@) && a.saturation == u63_of(
                vs,
                "saturation"@,
            )
            &&& a.derivcheck_timeout == u32_of(vs, "derivcheck_timeout"@)
            &&& a.proverif_no_reuse_lemmas == switched(vs, "proverif_no_reuse_lemmas"@)
            &&& a.proverif_no_restrictions == switched(vs, "proverif_no_restrictions"@)
            &&& a.replication_bound == u32_of(vs, "replication_bound"@)
            &&& a.no_compress == switched(vs, "no_compress"@) && a.parse_only == switched(
                vs,
                "parse_only"@,
            ) && a.precompute_only == switched(vs, "precompute_only"@)
            &&& a.processors == pool_of(vs, "processors"@) && a.maude_processes == pool_of(
                vs,
                "maude_processes"@,
            )
            &&& a.output_file == text_of(vs, "output_file"@) && a.output_dir == text_of(
                vs,
                "output_dir"@,
            ) && a.output_module == text_of(vs, "output_module"@)
            &&& a.trace_json == text_of(vs, "trace_json"@) && a.trace_dot == text_of(
                vs,
                "trace_dot"@,
            ) && a.state_audit == text_of(vs, "state_audit"@)
            &&& a.maude_path == text_of(vs, "maude_path"@) && a.dot_path == text_of(vs, "dot_path"@)
                && a.json_path == text_of(vs, "json_path"@)
        }),
{
    reveal(loaded);
}

/// Lemmas are proved exactly where `--prove` is given or an audit is asked for.
/// The patterns for lemmas are those of `--prove` and then those of `--lemma`,
/// each of the two from the last to the first.
pub proof fn law_lemmas_to_prove(vs: Seq<ValuesM>, i: int)
    ensures
        ({
            let a = loaded(vs);
            let p = raws_of(vs, "prove"@, 0);
            let l = raws_of(vs, "lemma"@, 0);
            &&& a.prove_mode <==> p.len() > 0 || text_of(vs, "state_audit"@) is Some
            &&& a.lemma_names.len() == p.len() + l.len()
            &&& 0 <= i < p.len() ==> a.lemma_names[i] == p[p.len() - 1 - i]
            &&& 0 <= i < l.len() ==> a.lemma_names[p.len() + i] == l[l.len() - 1 - i]
        }),
{
    reveal(loaded);
}

/// Without a subcommand the files are those that are named, in their order;
/// each subcommand is what its name says, and keeps the other options.
pub proof fn law_subcommands(f: FoundM)
    ensures
        f.sub is None ==> (options_of(f) matches Ok(a) && a.subcommand == Subcommand::Batch
            && a.in_files == raws_of(f.values, "files"@, 0) && a == (ArgsM {
            in_files: a.in_files,
            ..loaded(f.values)
        })),
        f.sub matches Some(s) ==> (options_of(f) matches Ok(a) ==> {
            &&& a.subcommand == Subcommand::Interactive <==> s.name == "interactive"@
            &&& a.subcommand == Subcommand::Variants <==> s.name == "variants"@
            &&& a.subcommand == Subcommand::Test <==> s.name == "test"@
            &&& s.name == "interactive"@ ==> {
                &&& a.in_files == raws_of(s.values, "workdir"@, 0)
                &&& a.port == u16_of(s.values, "port"@)
                &&& a.interface == text_of(s.values, "interface"@)
                &&& a.image_format == image_of(s.values, "image_format"@)
                &&& a.debug == switched(s.values, "debug"@)
                &&& a.no_logging == switched(s.values, "no_logging"@)
                &&& a.data_dir == text_of(s.values, "data_dir"@)
            }
            &&& s.name == "variants"@ ==> a.output_dir == text_of(s.values, "output_dir"@)
            &&& s.name == "test"@ ==> a.in_files == raws_of(s.values, "files"@, 0)
            &&& s.name == "input-manifest"@ ==> a.subcommand == Subcommand::InputManifest
                && a.in_files == raws_of(s.values, "file"@, 0)
            &&& a.bound == loaded(f.values).bound && a.lemma_names == loaded(f.values).lemma_names
                && a.prove_mode == loaded(f.values).prove_mode && a.defines == loaded(
                f.values,
            ).defines && a.diff == loaded(f.values).diff && a.heuristic == loaded(
                f.values,
            ).heuristic
        }),
{
    reveal(loaded);
    reveal(with_files);
    reveal(with_web);
    reveal(with_variants);
    reveal_strlit("interactive");
    reveal_strlit("variants");
    reveal_strlit("test");
    reveal_strlit("input-manifest");
    assert("interactive"@.len() == 11 && "variants"@.len() == 8 && "test"@.len() == 4
        && "input-manifest"@.len() == 14);
}

/// A flag of the batch mode is noticed exactly where one of them is given.
pub proof fn law_batch_flags(vs: Seq<ValuesM>)
    ensures
        batch_flag(vs) is Some <==> switched(vs, "no_compress"@) || switched(vs, "parse_only"@)
            || switched(vs, "precompute_only"@) || text_of(vs, "output_file"@) is Some || text_of(
            vs,
            "output_dir"@,
        ) is Some || text_of(vs, "output_module"@) is Some || text_of(vs, "trace_json"@) is Some
            || text_of(vs, "trace_dot"@) is Some || text_of(vs, "state_audit"@) is Some,
{
    reveal(batch_flag);
}

/// A refusal keeps its text, and asks to exit quietly exactly where help or the
/// version was asked for.
pub proof fn law_refusals(r: RefusalM)
    ensures
        refused(r).text == r.text,
        refused(r).kind == ErrorKind::DisplayHelp <==> r.kind == "DisplayHelp"@,
        refused(r).kind == ErrorKind::DisplayVersion <==> r.kind == "DisplayVersion"@,
        refused(r).kind == ErrorKind::UnknownArgument <==> r.kind == "UnknownArgument"@,
        refused(r).kind == ErrorKind::InvalidValue <==> r.kind == "InvalidValue"@,
        refused(r).kind == ErrorKind::ValueValidation <==> r.kind == "ValueValidation"@,
        refused(r).kind == ErrorKind::ArgumentConflict <==> r.kind == "ArgumentConflict"@,
        refused(r).kind == ErrorKind::MissingRequiredArgument <==> r.kind
            == "MissingRequiredArgument"@,
        refused(r).kind == ErrorKind::InvalidSubcommand <==> r.kind == "InvalidSubcommand"@,
        refused(r).kind == ErrorKind::NoEquals <==> r.kind == "NoEquals"@,
        refused(r).kind == ErrorKind::TooManyValues <==> r.kind == "TooManyValues"@,
        refused(r).kind == ErrorKind::TooFewValues <==> r.kind == "TooFewValues"@,
        refused(r).kind == ErrorKind::WrongNumberOfValues <==> r.kind == "WrongNumberOfValues"@,
        refused(r).kind == ErrorKind::MissingSubcommand <==> r.kind == "MissingSubcommand"@,
        refused(r).kind == ErrorKind::InvalidUtf8 <==> r.kind == "InvalidUtf8"@,
        refused(r).kind == ErrorKind::DisplayHelpOnMissingArgumentOrSubcommand <==> r.kind
            == "DisplayHelpOnMissingArgumentOrSubcommand"@,
{
    reveal(kind_named);
    lemma_kinds();
}

proof fn lemma_kinds()
    ensures
        forall|a: int, b: int| 0 <= a < b < 15 ==> #[trigger] kinds()[a] != #[trigger] kinds()[b],
        kinds()[0] == "InvalidValue"@,
        kinds()[1] == "UnknownArgument"@,
        kinds()[2] == "InvalidSubcommand"@,
        kinds()[3] == "NoEquals"@,
        kinds()[4] == "ValueValidation"@,
        kinds()[5] == "TooManyValues"@,
        kinds()[6] == "TooFewValues"@,
        kinds()[7] == "WrongNumberOfValues"@,
        kinds()[8] == "ArgumentConflict"@,
        kinds()[9] == "MissingRequiredArgument"@,
        kinds()[10] == "MissingSubcommand"@,
        kinds()[11] == "InvalidUtf8"@,
        kinds()[12] == "DisplayHelp"@,
        kinds()[13] == "DisplayHelpOnMissingArgumentOrSubcommand"@,
        kinds()[14] == "DisplayVersion"@,
{
    reveal_strlit("InvalidValue");
    reveal_strlit("UnknownArgument");
    reveal_strlit("InvalidSubcommand");
    reveal_strlit("NoEquals");
    reveal_strlit("ValueValidation");
    reveal_strlit("TooManyValues");
    reveal_strlit("TooFewValues");
    reveal_strlit("WrongNumberOfValues");
    reveal_strlit("ArgumentConflict");
    reveal_strlit("MissingRequiredArgument");
    reveal_strlit("MissingSubcommand");
    reveal_strlit("InvalidUtf8");
    reveal_strlit("DisplayHelp");
    reveal_strlit("DisplayHelpOnMissingArgumentOrSubcommand");
    reveal_strlit("DisplayVersion");
    let w = kinds();
    assert(w[0] == "InvalidValue"@ && w[0].len() == 12);
    assert(w[1] == "UnknownArgument"@ && w[1].len() == 15);
    assert(w[2] == "InvalidSubcommand"@ && w[2].len() == 17);
    assert(w[3] == "NoEquals"@ && w[3].len() == 8);
    assert(w[4] == "ValueValidation"@ && w[4].len() == 15);
    assert(w[5] == "TooManyValues"@ && w[5].len() == 13);
    assert(w[6] == "TooFewValues"@ && w[6].len() == 12);
    assert(w[7] == "WrongNumberOfValues"@ && w[7].len() == 19);
    assert(w[8] == "ArgumentConflict"@ && w[8].len() == 16);
    assert(w[9] == "MissingRequiredArgument"@ && w[9].len() == 23);
    assert(w[10] == "MissingSubcommand"@ && w[10].len() == 17);
    assert(w[11] == "InvalidUtf8"@ && w[11].len() == 11);
    assert(w[12] == "DisplayHelp"@ && w[12].len() == 11);
    assert(w[13] == "DisplayHelpOnMissingArgumentOrSubcommand"@ && w[13].len() == 40);
    assert(w[14] == "DisplayVersion"@ && w[14].len() == 14);
    assert(w[0][0] == 'I' && w[6][0] == 'T');
    assert(w[1][0] == 'U' && w[4][0] == 'V');
    assert(w[2][0] == 'I' && w[10][0] == 'M');
    assert(w[11][0] == 'I' && w[12][0] == 'D');
}

spec fn kinds() -> Seq<Seq<char>> {
    seq![
        "InvalidValue"@,
        "UnknownArgument"@,
        "InvalidSubcommand"@,
        "NoEquals"@,
        "ValueValidation"@,
        "TooManyValues"@,
        "TooFewValues"@,
        "WrongNumberOfValues"@,
        "ArgumentConflict"@,
        "MissingRequiredArgument"@,
        "MissingSubcommand"@,
        "InvalidUtf8"@,
        "DisplayHelp"@,
        "DisplayHelpOnMissingArgumentOrSubcommand"@,
        "DisplayVersion"@,
    ]
}

/// Workers are those that were asked for, and else those of the machine. There
/// are as many processes of the rewriting tool as were asked for, and else as
/// many as workers.
pub proof fn law_workers(a: ArgsM, machine: usize)
    ensures
        a.processors matches Some(n) ==> a.workers(machine) == n,
        a.processors is None ==> a.workers(machine) == machine,
        a.workers(machine) > 1 && a.maude_processes is None ==> a.maudes(machine) == a.workers(
            machine,
        ),
        a.workers(machine) > 1 ==> (a.maude_processes matches Some(n) ==> n >= 1 ==> a.maudes(
            machine,
        ) == n),
        a.maudes(machine) >= 1,
{
}

/// A pattern that ends with a star selects the names that start with what
/// stands before the star; any other pattern selects the name that it is.
pub proof fn law_patterns(p: Seq<char>, rest: Seq<char>, name: Seq<char>)
    ensures
        pattern_matches(p.push('*'), p + rest),
        pattern_matches(p.push('*'), name) ==> p.len() <= name.len() && name.take(p.len() as int)
            == p,
        (p.len() == 0 || p.last() != '*') ==> (pattern_matches(p, name) <==> p == name),
{
    assert(p.push('*').drop_last() =~= p);
    assert((p + rest).subrange(0, p.len() as int) =~= p);
    if pattern_matches(p.push('*'), name) {
        assert(name.take(p.len() as int) =~= p);
    }
}

/// Without patterns all lemmas are selected; with one that is not empty, those
/// that it matches.
pub proof fn law_selected_lemmas(p: Seq<char>, name: Seq<char>)
    ensures
        selects(Seq::empty(), name),
        selects(seq![Seq::empty()], name),
        p.len() > 0 ==> (selects(seq![p], name) <==> pattern_matches(p, name)),
{
    let one = seq![p];
    if p.len() > 0 {
        assert(one[0].len() > 0);
        if pattern_matches(p, name) {
            assert(pattern_matches(one[0], name));
        }
    }
    let none: Seq<Seq<char>> = Seq::empty();
    assert(selects_all(none));
    let blank: Seq<Seq<char>> = seq![Seq::empty()];
    assert(selects_all(blank));
}

} // verus!
