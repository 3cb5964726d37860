//! The flags and subcommands of the program, and reading them with clap.

use crate::debug::{debug_str, debug_text};
use crate::model::{no_items, put};
use crate::text::ascii_digit;
use crate::tokens::number_value;
use vstd::prelude::*;

verus! {

/// What a flag takes.
#[derive(Debug)]
pub enum Kind {
    /// Nothing.
    Switch,
    /// A text; the last one counts.
    Text,
    /// Any number of texts.
    Texts,
    /// One of these texts, maybe whatever the case of its letters.
    Choice { values: Vec<String>, any_case: bool },
    /// A number from 0 to this one, which may have a sign.
    Signed(i64),
    /// A number from 0 to this one.
    Unsigned(u64),
    /// A number from 1 on.
    Positive,
    /// Arguments that no flag stands before.
    Files,
    /// One such argument, which must be there.
    File,
}

pub enum KindM {
    Switch,
    Text,
    Texts,
    Choice { values: Seq<Seq<char>>, any_case: bool },
    Signed(i64),
    Unsigned(u64),
    Positive,
    Files,
    File,
}

impl DeepView for Kind {
    type V = KindM;

    open spec fn deep_view(&self) -> KindM {
        match *self {
            Kind::Switch => KindM::Switch,
            Kind::Text => KindM::Text,
            Kind::Texts => KindM::Texts,
            Kind::Choice { values, any_case } => KindM::Choice {
                values: values.deep_view(),
                any_case,
            },
            Kind::Signed(n) => KindM::Signed(n),
            Kind::Unsigned(n) => KindM::Unsigned(n),
            Kind::Positive => KindM::Positive,
            Kind::Files => KindM::Files,
            Kind::File => KindM::File,
        }
    }
}

/// A flag or an argument.
#[derive(Debug)]
pub struct FlagSpec {
    pub id: String,
    pub short: Option<char>,
    pub long: String,
    pub alias: Option<String>,
    /// It may stand on either side of a subcommand.
    pub global: bool,
    /// Its value must follow an equals sign.
    pub equals: bool,
    /// How many values it takes at least.
    pub fewest: usize,
    /// Its value where it stands alone.
    pub missing: Option<String>,
    pub value_name: String,
    pub help: String,
    pub kind: Kind,
}

pub struct FlagM {
    pub id: Seq<char>,
    pub short: Option<char>,
    pub long: Seq<char>,
    pub alias: Option<Seq<char>>,
    pub global: bool,
    pub equals: bool,
    pub fewest: usize,
    pub missing: Option<Seq<char>>,
    pub value_name: Seq<char>,
    pub help: Seq<char>,
    pub kind: KindM,
}

impl DeepView for FlagSpec {
    type V = FlagM;

    open spec fn deep_view(&self) -> FlagM {
        FlagM {
            id: self.id@,
            short: self.short,
            long: self.long@,
            alias: self.alias.deep_view(),
            global: self.global,
            equals: self.equals,
            fewest: self.fewest,
            missing: self.missing.deep_view(),
            value_name: self.value_name@,
            help: self.help@,
            kind: self.kind.deep_view(),
        }
    }
}

/// A flag whose value follows an equals sign, or which stands alone.
#[verifier::opaque]
pub open spec fn optional_row(
    id: Seq<char>,
    short: Option<char>,
    long: Seq<char>,
    global: bool,
    missing: Seq<char>,
    value_name: Seq<char>,
    help: Seq<char>,
    kind: KindM,
) -> FlagM {
    FlagM {
        id,
        short,
        long,
        alias: None,
        global,
        equals: true,
        fewest: 0,
        missing: Some(missing),
        value_name,
        help,
        kind,
    }
}

/// A flag whose value follows an equals sign.
#[verifier::opaque]
pub open spec fn attached_row(
    id: Seq<char>,
    short: Option<char>,
    long: Seq<char>,
    global: bool,
    value_name: Seq<char>,
    help: Seq<char>,
    kind: KindM,
) -> FlagM {
    FlagM {
        id,
        short,
        long,
        alias: None,
        global,
        equals: true,
        fewest: 1,
        missing: None,
        value_name,
        help,
        kind,
    }
}

/// A flag whose value may be the next argument.
#[verifier::opaque]
pub open spec fn separate_row(
    id: Seq<char>,
    long: Seq<char>,
    alias: Option<Seq<char>>,
    global: bool,
    value_name: Seq<char>,
    help: Seq<char>,
    kind: KindM,
) -> FlagM {
    FlagM {
        id,
        short: None,
        long,
        alias,
        global,
        equals: false,
        fewest: 1,
        missing: None,
        value_name,
        help,
        kind,
    }
}

/// A flag without a value.
#[verifier::opaque]
pub open spec fn switch_row(
    id: Seq<char>,
    short: Option<char>,
    long: Seq<char>,
    global: bool,
    help: Seq<char>,
) -> FlagM {
    FlagM {
        id,
        short,
        long,
        alias: None,
        global,
        equals: false,
        fewest: 0,
        missing: None,
        value_name: Seq::empty(),
        help,
        kind: KindM::Switch,
    }
}

/// An argument that no flag stands before.
#[verifier::opaque]
pub open spec fn positional_row(
    id: Seq<char>,
    value_name: Seq<char>,
    help: Seq<char>,
    kind: KindM,
) -> FlagM {
    FlagM {
        id,
        short: None,
        long: Seq::empty(),
        alias: None,
        global: false,
        equals: false,
        fewest: 1,
        missing: None,
        value_name,
        help,
        kind,
    }
}

/// The ways to stop at a trace.
pub open spec fn stop_names() -> Seq<Seq<char>> {
    seq!["dfs"@, "bfs"@, "seqdfs"@, "sorry"@, "none"@]
}

/// The styles of partial evaluation.
pub open spec fn style_names() -> Seq<Seq<char>> {
    seq!["summary"@, "verbose"@]
}

/// The output modules.
pub open spec fn module_names() -> Seq<Seq<char>> {
    seq!["spthy"@, "spthytyped"@, "msr"@, "proverifequiv"@, "proverif"@, "deepsec"@]
}

/// The image formats.
pub open spec fn image_names() -> Seq<Seq<char>> {
    seq!["png"@, "svg"@]
}

/// The flags that say how theories are read and proved.
pub open spec fn load_table() -> Seq<FlagM> {
    seq![
        optional_row(
            "prove"@,
            None,
            "prove"@,
            true,
            ""@,
            "LEMMA"@,
            "Prove the selected lemmas (without a value: all lemmas; `=NAME` exact, `=PREFIX*` by prefix; repeatable)"@,
            KindM::Texts,
        ),
        optional_row(
            "lemma"@,
            None,
            "lemma"@,
            true,
            ""@,
            "LEMMA"@,
            "Restrict what `--prove` proves (`=NAME` exact or `=PREFIX*`; repeatable)"@,
            KindM::Texts,
        ),
        optional_row(
            "stop_on_trace"@,
            None,
            "stop-on-trace"@,
            true,
            "dfs"@,
            "METHOD"@,
            "Cut the search when a trace is found (default: dfs)"@,
            KindM::Choice { values: stop_names(), any_case: true },
        ),
        optional_row(
            "bound"@,
            Some('b'),
            "bound"@,
            true,
            "5"@,
            "N"@,
            "Bound the proof-search depth at N; nodes at that depth become `sorry /* bound N hit */` (without a value: 5; absent: no bound)"@,
            KindM::Signed(0xffff_ffff),
        ),
        attached_row(
            "lemma_timeout"@,
            None,
            "lemma-timeout"@,
            true,
            "SECONDS"@,
            "Give each lemma at most SECONDS of proof search; one that overruns is reported `analysis incomplete` and the run continues (absent: no budget)"@,
            KindM::Signed(0xffff_ffff),
        ),
        attached_row(
            "without_rule"@,
            None,
            "without-rule"@,
            true,
            "RULE"@,
            "Read the theory as if it had no such rule (repeatable)"@,
            KindM::Texts,
        ),
        attached_row(
            "without_restriction"@,
            None,
            "without-restriction"@,
            true,
            "RESTRICTION"@,
            "Read the theory as if it had no such restriction (repeatable)"@,
            KindM::Texts,
        ),
        optional_row(
            "heuristic"@,
            None,
            "heuristic"@,
            true,
            "s"@,
            "RANKING"@,
            "Goal-ranking sequence; overrides the theory's own heuristic (without a value: `s`, the smart ranking)"@,
            KindM::Text,
        ),
        optional_row(
            "partial_evaluation"@,
            None,
            "partial-evaluation"@,
            true,
            "summary"@,
            "STYLE"@,
            "Apply partial evaluation before proving (without a value: summary)"@,
            KindM::Choice { values: style_names(), any_case: true },
        ),
        optional_row(
            "defines"@,
            Some('D'),
            "defines"@,
            true,
            ""@,
            "SYMBOL"@,
            "Preprocessor `#define` symbol (`-D=X`; repeatable)"@,
            KindM::Texts,
        ),
        switch_row(
            "diff"@,
            None,
            "diff"@,
            true,
            "Observational-equivalence mode (not yet supported; errors)"@,
        ),
        switch_row(
            "quit_on_warning"@,
            None,
            "quit-on-warning"@,
            true,
            "Abort on wellformedness warnings"@,
        ),
        switch_row("no_ndc"@, None, "no-ndc"@, true, "Skip the no-deconstruction-chain check"@),
        switch_row(
            "auto_sources"@,
            None,
            "auto-sources"@,
            true,
            "Auto-generate sources lemmas for theories with partial deconstructions"@,
        ),
        optional_row(
            "oracle_name"@,
            None,
            "oraclename"@,
            true,
            ""@,
            "FILE"@,
            "Oracle script for `--heuristic=o` rankings (default: derived from the theory filename)"@,
            KindM::Text,
        ),
        switch_row(
            "oracle_only"@,
            None,
            "oracle-only"@,
            true,
            "Stop when the oracle/tactic ranks no goals"@,
        ),
        switch_row("quiet"@, None, "quiet"@, true, "Suppress Rust-side diagnostics that have no oracle counterpart"@),
        switch_row("verbose"@, Some('v'), "verbose"@, true, "Accepted for compatibility (the oracle's verbose trace is not supported)"@),
        optional_row(
            "open_chains"@,
            Some('c'),
            "open-chains"@,
            true,
            "10"@,
            "N"@,
            "Cap on open chain constraints during source precomputation (default: 10)"@,
            KindM::Unsigned(0x7fff_ffff_ffff_ffff),
        ),
        optional_row(
            "saturation"@,
            Some('s'),
            "saturation"@,
            true,
            "5"@,
            "N"@,
            "Cap on source-saturation iterations (default: 5)"@,
            KindM::Unsigned(0x7fff_ffff_ffff_ffff),
        ),
        optional_row(
            "derivcheck_timeout"@,
            Some('d'),
            "derivcheck-timeout"@,
            true,
            "5"@,
            "SECONDS"@,
            "Per-variable message-derivation-check timeout in seconds; 0 disables (default: 5)"@,
            KindM::Signed(0xffff_ffff),
        ),
        switch_row(
            "proverif_no_reuse_lemmas"@,
            None,
            "proverif-no-reuse-lemmas"@,
            true,
            "Accepted for compatibility (ProVerif export is not supported)"@,
        ),
        switch_row(
            "proverif_no_restrictions"@,
            None,
            "proverif-no-restrictions"@,
            true,
            "Accepted for compatibility (ProVerif export is not supported)"@,
        ),
        optional_row(
            "replication_bound"@,
            None,
            "replication-bound"@,
            true,
            "3"@,
            "N"@,
            "Accepted for compatibility (DeepSec export is not supported; default: 3)"@,
            KindM::Signed(0xffff_ffff),
        ),
    ]
}

/// The flags that say which tools are used, and how many of them at once.
pub open spec fn tool_table() -> Seq<FlagM> {
    seq![
        optional_row(
            "maude_path"@,
            None,
            "with-maude"@,
            true,
            "maude"@,
            "PATH"@,
            "Path to the maude binary (default: `maude` on $PATH)"@,
            KindM::Text,
        ),
        optional_row(
            "dot_path"@,
            None,
            "with-dot"@,
            true,
            "dot"@,
            "PATH"@,
            "GraphViz binary for interactive graph rendering (default: `dot`)"@,
            KindM::Text,
        ),
        optional_row(
            "json_path"@,
            None,
            "with-json"@,
            true,
            "json"@,
            "PATH"@,
            "Render interactive graphs via `<PATH> <img> <json>` instead of dot (without a value: `json`)"@,
            KindM::Text,
        ),
        separate_row(
            "processors"@,
            "processors"@,
            None,
            true,
            "N"@,
            "Rayon worker-pool size (default: all cores; 1 = sequential output)"@,
            KindM::Positive,
        ),
        separate_row(
            "maude_processes"@,
            "maude-processes"@,
            None,
            true,
            "N"@,
            "Maude subprocess-pool size for parallel sites (default: one per worker)"@,
            KindM::Positive,
        ),
    ]
}

/// The flags of the batch mode.
pub open spec fn batch_table() -> Seq<FlagM> {
    seq![
        switch_row("no_compress"@, None, "no-compress"@, false, "Accepted for compatibility (uncompressed sequent visualization; nothing reads it here)"@),
        switch_row(
            "parse_only"@,
            None,
            "parse-only"@,
            false,
            "Pretty-print the parsed theory and exit (no wellformedness, no Maude, no proving)"@,
        ),
        switch_row(
            "precompute_only"@,
            None,
            "precompute-only"@,
            false,
            "Run the source precomputation only and print its statistics"@,
        ),
        optional_row(
            "output_file"@,
            Some('o'),
            "output"@,
            false,
            ""@,
            "FILE"@,
            "Write the resulting theory to FILE (without a value: the name `-O` derives, so `-O` is then required; absent: stdout)"@,
            KindM::Text,
        ),
        optional_row(
            "output_dir"@,
            Some('O'),
            "Output"@,
            false,
            ""@,
            "DIR"@,
            "Write resulting theories into DIR (without a value: the current directory; absent: stdout)"@,
            KindM::Text,
        ),
        optional_row(
            "output_module"@,
            Some('m'),
            "output-module"@,
            false,
            "spthy"@,
            "MODULE"@,
            "Translate-only output module (without a value: spthy)"@,
            KindM::Choice { values: module_names(), any_case: false },
        ),
        separate_row(
            "trace_json"@,
            "output-json"@,
            Some("oj"@),
            false,
            "FILE"@,
            "Write JSON serializations of every solved constraint system to FILE"@,
            KindM::Text,
        ),
        separate_row(
            "trace_dot"@,
            "output-dot"@,
            Some("od"@),
            false,
            "FILE"@,
            "Write DOT graphs of every solved constraint system to FILE"@,
            KindM::Text,
        ),
        optional_row(
            "state_audit"@,
            None,
            "state-audit"@,
            false,
            "state-audit.json"@,
            "FILE"@,
            "Prove the selected lemmas, write a state-transition audit report to FILE, and exit 2 when a selected property is falsified (without a value: `state-audit.json`)"@,
            KindM::Text,
        ),
    ]
}

/// The arguments of the batch mode.
pub open spec fn file_table() -> Seq<FlagM> {
    seq![
        positional_row("files"@, "FILES"@, "`.spthy` theory files to process"@, KindM::Files),
    ]
}

/// The flags and arguments of `interactive`.
pub open spec fn web_table() -> Seq<FlagM> {
    seq![
        optional_row(
            "port"@,
            Some('p'),
            "port"@,
            false,
            "3001"@,
            "PORT"@,
            "Port to listen on (default: 3001)"@,
            KindM::Signed(0xffff),
        ),
        attached_row(
            "interface"@,
            Some('i'),
            "interface"@,
            false,
            "INTERFACE"@,
            "Interface to bind: `-i=IP`, or \"*\"/\"*4\"/\"*6\" for all interfaces (default 127.0.0.1)"@,
            KindM::Text,
        ),
        attached_row(
            "image_format"@,
            None,
            "image-format"@,
            false,
            "FORMAT"@,
            "Graph image format (accepted; rendering currently always uses SVG)"@,
            KindM::Choice { values: image_names(), any_case: true },
        ),
        switch_row("debug"@, None, "debug"@, false, "Accepted for compatibility (there is no web debug output)"@),
        switch_row("no_logging"@, None, "no-logging"@, false, "Accepted for compatibility (there is no HTTP request logger to turn off)"@),
        separate_row(
            "data_dir"@,
            "data-dir"@,
            None,
            false,
            "DIR"@,
            "Directory with the static web assets (default: auto-detected `data/`)"@,
            KindM::Text,
        ),
        positional_row(
            "workdir"@,
            "WORKDIR"@,
            "Theory files, or a directory of them, to serve"@,
            KindM::Files,
        ),
    ]
}

/// The flags of `variants`.
pub open spec fn variants_table() -> Seq<FlagM> {
    seq![
        optional_row(
            "output_dir"@,
            Some('O'),
            "Output"@,
            false,
            ""@,
            "DIR"@,
            "Also write the two variant files under DIR/data/"@,
            KindM::Text,
        ),
    ]
}

/// The arguments of `test`.
pub open spec fn test_table() -> Seq<FlagM> {
    seq![
        positional_row("files"@, "FILES"@, "Accepted for compatibility; ignored"@, KindM::Files),
    ]
}

/// The argument of `input-manifest`.
pub open spec fn manifest_table() -> Seq<FlagM> {
    seq![
        positional_row("file"@, "FILE"@, ""@, KindM::File),
    ]
}

/// What a command is made of.
pub enum PartM {
    Named { name: Seq<char>, about: Seq<char> },
    Program {
        version: Seq<char>,
        long_version: Seq<char>,
        help_if_empty: bool,
        override_self: bool,
    },
    Help(Seq<char>),
    Flag(FlagM),
    Command { parts: Seq<PartM>, alias: Option<Seq<char>> },
}

/// A part for each flag.
pub open spec fn flag_parts(flags: Seq<FlagM>) -> Seq<PartM> {
    flags.map_values(|f: FlagM| PartM::Flag(f))
}

/// The version of the program.
pub open spec fn version() -> Seq<char> {
    "0.1.0"@
}

/// Where a build of the program comes from.
#[derive(Debug, Clone)]
pub struct Build {
    pub revision: String,
    pub branch: String,
    pub timestamp: String,
}

pub struct BuildM {
    pub revision: Seq<char>,
    pub branch: Seq<char>,
    pub timestamp: Seq<char>,
}

impl DeepView for Build {
    type V = BuildM;

    open spec fn deep_view(&self) -> BuildM {
        BuildM {
            revision: self.revision@,
            branch: self.branch@,
            timestamp: self.timestamp@,
        }
    }
}

/// The version of the program and where the build comes from.
pub open spec fn long_version(b: BuildM) -> Seq<char> {
    version() + "\ngit revision "@ + b.revision + " (branch "@ + b.branch + ")\ncompiled at "@
        + b.timestamp
}

/// How the help of the program is laid out. The subcommands are listed but for
/// `input-manifest`, which serves the tests of the program.
pub open spec fn help_layout() -> Seq<char> {
    "{before-help}{about-with-newline}\n{usage-heading} {usage}\n\nCommands:\n"@
        + "  interactive  Serve the interactive web UI\n"@
        + "  variants     Dump the DH and bilinear-pairing intruder-rule variants\n"@
        + "  test         Self-test the installation (maude and GraphViz probes)\n"@
        + "  help         Print this message or the help of the given subcommand(s)\n\n"@
        + "Arguments:\n{positionals}\n\nOptions:\n{options}{after-help}"@
}

/// A subcommand.
pub open spec fn subcommand_part(
    name: Seq<char>,
    about: Seq<char>,
    flags: Seq<FlagM>,
    alias: Option<Seq<char>>,
) -> PartM {
    PartM::Command {
        parts: seq![PartM::Named { name, about }] + flag_parts(flags),
        alias,
    }
}

/// The program: its flags, and its subcommands.
pub open spec fn program(b: BuildM) -> Seq<PartM> {
    seq![
        PartM::Named {
            name: "tamarin-rs"@,
            about: "Security protocol analysis and verification"@,
        },
        PartM::Program {
            version: version(),
            long_version: long_version(b),
            help_if_empty: true,
            override_self: true,
        },
        PartM::Help(help_layout()),
    ] + flag_parts(load_table()) + flag_parts(tool_table()) + flag_parts(batch_table())
        + flag_parts(file_table()) + seq![
        subcommand_part(
            "interactive"@,
            "Serve the interactive web UI"@,
            web_table(),
            None,
        ),
        subcommand_part(
            "variants"@,
            "Dump the DH and bilinear-pairing intruder-rule variants"@,
            variants_table(),
            None,
        ),
        subcommand_part(
            "test"@,
            "Self-test the installation (maude and GraphViz probes)"@,
            test_table(),
            Some("test-prover"@),
        ),
        subcommand_part(
            "input-manifest"@,
            "Print parser-selected source and oracle inputs as tagged TSV"@,
            manifest_table(),
            None,
        ),
    ]
}

/// The values that were given for a flag, as they were written.
#[derive(Debug)]
pub struct Values {
    pub id: String,
    pub raws: Vec<String>,
}

pub struct ValuesM {
    pub id: Seq<char>,
    pub raws: Seq<Seq<char>>,
}

impl DeepView for Values {
    type V = ValuesM;

    open spec fn deep_view(&self) -> ValuesM {
        ValuesM { id: self.id@, raws: self.raws.deep_view() }
    }
}

/// The subcommand that was given, and the values for its flags.
#[derive(Debug)]
pub struct SubFound {
    pub name: String,
    pub values: Vec<Values>,
}

pub struct SubFoundM {
    pub name: Seq<char>,
    pub values: Seq<ValuesM>,
}

impl DeepView for SubFound {
    type V = SubFoundM;

    open spec fn deep_view(&self) -> SubFoundM {
        SubFoundM { name: self.name@, values: self.values.deep_view() }
    }
}

/// What was given on a command line.
#[derive(Debug)]
pub struct Found {
    pub values: Vec<Values>,
    pub sub: Option<SubFound>,
}

pub struct FoundM {
    pub values: Seq<ValuesM>,
    pub sub: Option<SubFoundM>,
}

impl DeepView for Found {
    type V = FoundM;

    open spec fn deep_view(&self) -> FoundM {
        FoundM { values: self.values.deep_view(), sub: self.sub.deep_view() }
    }
}

/// Why a command line was refused: the name of the kind of error, and its text.
#[derive(Debug)]
pub struct Refusal {
    pub kind: String,
    pub text: String,
}

pub struct RefusalM {
    pub kind: Seq<char>,
    pub text: Seq<char>,
}

impl DeepView for Refusal {
    type V = RefusalM;

    open spec fn deep_view(&self) -> RefusalM {
        RefusalM { kind: self.kind@, text: self.text@ }
    }
}

/// What clap makes of a command line.
pub open spec fn found<T: DeepView, E: DeepView>(r: Result<T, E>) -> Result<T::V, E::V> {
    match r {
        Ok(t) => Ok(t.deep_view()),
        Err(e) => Err(e.deep_view()),
    }
}

/// Digits only, and at least one.
pub open spec fn all_digits(t: Seq<char>) -> bool {
    t.len() > 0 && forall|i: int| 0 <= i < t.len() ==> ascii_digit(#[trigger] t[i])
}

/// The digits of a number behind its sign.
pub open spec fn unsigned_part(t: Seq<char>) -> Seq<char> {
    if t.len() > 0 && (t[0] == '+' || t[0] == '-') {
        t.skip(1)
    } else {
        t
    }
}

/// The number that is written, if it lies between 0 and `max`.
pub open spec fn number_upto(t: Seq<char>, max: int) -> Option<int> {
    let d = unsigned_part(t);
    let n = number_value(d, 0, d.len() as int);
    if all_digits(d) && n <= max && (t[0] == '-' ==> n == 0) {
        Some(n)
    } else {
        None
    }
}

/// Whether the text is a number without a minus sign that fits.
pub open spec fn positive_text(s: Seq<char>) -> Result<usize, Seq<char>> {
    match number_upto(s, usize::MAX as int) {
        Some(n) => if s[0] == '-' {
            Err("expected a positive integer, got "@ + debug_text(s))
        } else if n == 0 {
            Err("must be >= 1"@)
        } else {
            Ok(n as usize)
        },
        None => Err("expected a positive integer, got "@ + debug_text(s)),
    }
}

/// The number that is written, if it lies between 0 and `max`.
pub fn parse_number(text: &str, max: u64) -> (r: Option<u64>)
    ensures
        match number_upto(text@, max as int) {
            Some(n) => r is Some && r->0 == n,
            None => r is None,
        },
{
    let t = crate::text::chars_of(text);
    let signed = t.len() > 0 && (t[0] == '+' || t[0] == '-');
    let from: usize = if signed {
        1
    } else {
        0
    };
    let ghost d = unsigned_part(t@);
    assert(d =~= t@.skip(from as int));
    if from == t.len() {
        return None;
    }
    let mut n: u64 = 0;
    let mut big = false;
    let mut i: usize = from;
    while i < t.len()
        invariant
            from <= i <= t@.len(),
            from <= 1,
            t@ == text@,
            d == unsigned_part(text@),
            d == t@.skip(from as int),
            forall|k: int| 0 <= k < i - from ==> ascii_digit(#[trigger] d[k]),
            !big ==> n == number_value(d, 0, i - from),
            big ==> number_value(d, 0, i - from) > u64::MAX,
        decreases t@.len() - i,
    {
        let c = t[i];
        assert(d[i - from] == c);
        if !crate::text::is_digit(c) {
            assert(!all_digits(d));
            return None;
        }
        let digit: u64 = (c as u64) - 48;
        proof {
            assert(number_value(d, 0, i - from + 1) == 10 * number_value(d, 0, i - from) + digit);
        }
        if !big {
            if n > (u64::MAX - digit) / 10 {
                big = true;
            } else {
                n = 10 * n + digit;
            }
        }
        i = i + 1;
    }
    if big || n > max || (t[0] == '-' && n > 0) {
        return None;
    }
    Some(n)
}

/// Whether the text is a number from 1 on.
pub fn positive_usize(s: &str) -> (r: Result<usize, String>)
    ensures
        match r {
            Ok(n) => positive_text(s@) == Ok::<usize, Seq<char>>(n),
            Err(e) => positive_text(s@) == Err::<usize, Seq<char>>(e@),
        },
{
    let t = crate::text::chars_of(s);
    let minus = t.len() > 0 && t[0] == '-';
    let n = match parse_number(s, usize::MAX as u64) {
        Some(n) if !minus => n,
        _ => {
            let mut e = "expected a positive integer, got ".to_string();
            e.push_str(&debug_str(s));
            return Err(e);
        },
    };
    if n == 0 {
        return Err("must be >= 1".to_string());
    }
    Ok(n as usize)
}

fn stop_values() -> (v: Vec<String>)
    ensures
        v.deep_view() == stop_names(),
{
    let mut v = no_items::<String>();
    put(&mut v, "dfs".to_string());
    put(&mut v, "bfs".to_string());
    put(&mut v, "seqdfs".to_string());
    put(&mut v, "sorry".to_string());
    put(&mut v, "none".to_string());
    assert(v.deep_view() =~= stop_names());
    v
}

fn style_values() -> (v: Vec<String>)
    ensures
        v.deep_view() == style_names(),
{
    let mut v = no_items::<String>();
    put(&mut v, "summary".to_string());
    put(&mut v, "verbose".to_string());
    assert(v.deep_view() =~= style_names());
    v
}

fn module_values() -> (v: Vec<String>)
    ensures
        v.deep_view() == module_names(),
{
    let mut v = no_items::<String>();
    put(&mut v, "spthy".to_string());
    put(&mut v, "spthytyped".to_string());
    put(&mut v, "msr".to_string());
    put(&mut v, "proverifequiv".to_string());
    put(&mut v, "proverif".to_string());
    put(&mut v, "deepsec".to_string());
    assert(v.deep_view() =~= module_names());
    v
}

fn image_values() -> (v: Vec<String>)
    ensures
        v.deep_view() == image_names(),
{
    let mut v = no_items::<String>();
    put(&mut v, "png".to_string());
    put(&mut v, "svg".to_string());
    assert(v.deep_view() =~= image_names());
    v
}

fn opt_text(o: Option<&str>) -> (r: Option<String>)
    ensures
        r.deep_view() == (match o {
            Some(s) => Some(s@),
            None => None,
        }),
{
    match o {
        Some(s) => Some(s.to_string()),
        None => None,
    }
}

fn optional(
    id: &str,
    short: Option<char>,
    long: &str,
    global: bool,
    missing: &str,
    value_name: &str,
    help: &str,
    kind: Kind,
) -> (f: FlagSpec)
    ensures
        f.deep_view() == optional_row(id@, short, long@, global, missing@, value_name@, help@, kind.deep_view()),
{
    proof {
        reveal(optional_row);
    }
    FlagSpec {
        id: id.to_string(),
        short,
        long: long.to_string(),
        alias: None,
        global,
        equals: true,
        fewest: 0,
        missing: Some(missing.to_string()),
        value_name: value_name.to_string(),
        help: help.to_string(),
        kind,
    }
}

fn attached(
    id: &str,
    short: Option<char>,
    long: &str,
    global: bool,
    value_name: &str,
    help: &str,
    kind: Kind,
) -> (f: FlagSpec)
    ensures
        f.deep_view() == attached_row(id@, short, long@, global, value_name@, help@, kind.deep_view()),
{
    proof {
        reveal(attached_row);
    }
    FlagSpec {
        id: id.to_string(),
        short,
        long: long.to_string(),
        alias: None,
        global,
        equals: true,
        fewest: 1,
        missing: None,
        value_name: value_name.to_string(),
        help: help.to_string(),
        kind,
    }
}

fn separate(
    id: &str,
    long: &str,
    alias: Option<&str>,
    global: bool,
    value_name: &str,
    help: &str,
    kind: Kind,
) -> (f: FlagSpec)
    ensures
        f.deep_view() == separate_row(
            id@,
            long@,
            match alias {
                Some(a) => Some(a@),
                None => None,
            },
            global,
            value_name@,
            help@,
            kind.deep_view(),
        ),
{
    proof {
        reveal(separate_row);
    }
    FlagSpec {
        id: id.to_string(),
        short: None,
        long: long.to_string(),
        alias: opt_text(alias),
        global,
        equals: false,
        fewest: 1,
        missing: None,
        value_name: value_name.to_string(),
        help: help.to_string(),
        kind,
    }
}

fn switch(
    id: &str,
    short: Option<char>,
    long: &str,
    global: bool,
    help: &str,
) -> (f: FlagSpec)
    ensures
        f.deep_view() == switch_row(id@, short, long@, global, help@),
{
    proof {
        reveal(switch_row);
    }
    FlagSpec {
        id: id.to_string(),
        short,
        long: long.to_string(),
        alias: None,
        global,
        equals: false,
        fewest: 0,
        missing: None,
        value_name: empty_text(),
        help: help.to_string(),
        kind: Kind::Switch,
    }
}

fn positional(
    id: &str,
    value_name: &str,
    help: &str,
    kind: Kind,
) -> (f: FlagSpec)
    ensures
        f.deep_view() == positional_row(id@, value_name@, help@, kind.deep_view()),
{
    proof {
        reveal(positional_row);
    }
    FlagSpec {
        id: id.to_string(),
        short: None,
        long: empty_text(),
        alias: None,
        global: false,
        equals: false,
        fewest: 1,
        missing: None,
        value_name: value_name.to_string(),
        help: help.to_string(),
        kind,
    }
}

fn empty_text() -> (s: String)
    ensures
        s@ == Seq::<char>::empty(),
{
    let s = String::new();
    assert(s@ =~= Seq::empty());
    s
}

/// Whether clap takes the flag, and each property that it has is one that clap
/// is told of: a dash is no short name, a flag with a value takes one at most,
/// a switch takes none, and an argument that no flag stands before has no names.
pub open spec fn buildable(f: FlagM) -> bool {
    &&& f.short != Some('-')
    &&& match f.kind {
        KindM::Switch => f.alias is None && !f.equals && f.fewest == 0 && f.missing is None
            && f.value_name.len() == 0,
        KindM::Files => unnamed(f),
        KindM::File => unnamed(f) && f.fewest == 1,
        _ => f.fewest <= 1,
    }
}

/// Whether the argument has no name and none of the properties of a flag.
pub open spec fn unnamed(f: FlagM) -> bool {
    &&& f.short is None
    &&& f.long.len() == 0
    &&& f.alias is None
    &&& !f.global
    &&& !f.equals
    &&& f.missing is None
}

/// `clap::Command`, a program or a subcommand with its flags.
#[verifier::external_type_specification]
#[verifier::external_body]
pub struct ExCommand(clap::Command);

/// What a `clap::Command` holds: what it was made of, in order.
pub uninterp spec fn parts_of(c: clap::Command) -> Seq<PartM>;

/// What clap makes of a command line under such a command: the values of each
/// flag and of the subcommand, or an error of a kind and with a text. It is a
/// function of the two: nothing else is read.
pub uninterp spec fn clap_reads(parts: Seq<PartM>, argv: Seq<Seq<char>>) -> Result<FoundM, RefusalM>;

/// `clap::Command::new` and `clap::Command::about`: a command that holds
/// nothing but its name and its description.
#[verifier::external_body]
fn new_command(name: &str, about: &str) -> (r: clap::Command)
    ensures
        parts_of(r) == seq![PartM::Named { name: name@, about: about@ }],
{
    clap::Command::new(name.to_string()).about(about.to_string())
}

/// `clap::Command::version`, `long_version`, `arg_required_else_help` and
/// `args_override_self`: the command with these settings added.
#[verifier::external_body]
fn as_program(
    c: clap::Command,
    version: &str,
    long_version: &str,
    help_if_empty: bool,
    override_self: bool,
) -> (r: clap::Command)
    ensures
        parts_of(r) == parts_of(c).push(
            PartM::Program {
                version: version@,
                long_version: long_version@,
                help_if_empty,
                override_self,
            },
        ),
{
    c.version(version.to_string())
        .long_version(long_version.to_string())
        .arg_required_else_help(help_if_empty)
        .args_override_self(override_self)
}

/// `clap::Command::help_template`: the command with the layout of its help added.
#[verifier::external_body]
fn with_help(c: clap::Command, layout: &str) -> (r: clap::Command)
    ensures
        parts_of(r) == parts_of(c).push(PartM::Help(layout@)),
{
    c.help_template(layout.to_string())
}

/// `clap::Command::arg` with `ArgAction::SetTrue`: the command with a flag
/// without a value added.
#[verifier::external_body]
fn add_switch(c: clap::Command, f: &FlagSpec) -> (r: clap::Command)
    requires
        f.kind is Switch,
        buildable(f.deep_view()),
    ensures
        parts_of(r) == parts_of(c).push(PartM::Flag(f.deep_view())),
{
    let arg = clap::Arg::new(f.id.clone())
        .short(f.short)
        .long(f.long.clone())
        .global(f.global)
        .help(f.help.clone())
        .action(clap::ArgAction::SetTrue);
    c.arg(arg)
}

/// `clap::Command::arg` with `ArgAction::Set`: the command with a flag added
/// that takes a text.
#[verifier::external_body]
fn add_text(c: clap::Command, f: &FlagSpec) -> (r: clap::Command)
    requires
        f.kind is Text,
        buildable(f.deep_view()),
    ensures
        parts_of(r) == parts_of(c).push(PartM::Flag(f.deep_view())),
{
    let arg = clap::Arg::new(f.id.clone())
        .short(f.short)
        .long(f.long.clone())
        .aliases(f.alias.clone())
        .global(f.global)
        .require_equals(f.equals)
        .num_args(f.fewest..=1)
        .default_missing_values(f.missing.clone())
        .value_name(f.value_name.clone())
        .help(f.help.clone())
        .action(clap::ArgAction::Set);
    c.arg(arg)
}

/// `clap::Command::arg` with `ArgAction::Append`: the command with a flag added
/// that takes a text each time it is given.
#[verifier::external_body]
fn add_texts(c: clap::Command, f: &FlagSpec) -> (r: clap::Command)
    requires
        f.kind is Texts,
        buildable(f.deep_view()),
    ensures
        parts_of(r) == parts_of(c).push(PartM::Flag(f.deep_view())),
{
    let arg = clap::Arg::new(f.id.clone())
        .short(f.short)
        .long(f.long.clone())
        .aliases(f.alias.clone())
        .global(f.global)
        .require_equals(f.equals)
        .num_args(f.fewest..=1)
        .default_missing_values(f.missing.clone())
        .value_name(f.value_name.clone())
        .help(f.help.clone())
        .action(clap::ArgAction::Append);
    c.arg(arg)
}

/// `clap::Command::arg` with `PossibleValuesParser`: the command with a flag
/// added that takes one of the values.
#[verifier::external_body]
fn add_choice(c: clap::Command, f: &FlagSpec, values: &Vec<String>, any_case: bool) -> (r: clap::Command)
    requires
        f.kind == (Kind::Choice { values: *values, any_case }),
        buildable(f.deep_view()),
    ensures
        parts_of(r) == parts_of(c).push(PartM::Flag(f.deep_view())),
{
    let arg = clap::Arg::new(f.id.clone())
        .short(f.short)
        .long(f.long.clone())
        .aliases(f.alias.clone())
        .global(f.global)
        .require_equals(f.equals)
        .num_args(f.fewest..=1)
        .default_missing_values(f.missing.clone())
        .value_name(f.value_name.clone())
        .help(f.help.clone())
        .ignore_case(any_case)
        .value_parser(clap::builder::PossibleValuesParser::new(values.clone()));
    c.arg(arg)
}

/// `clap::Command::arg` with `RangedI64ValueParser`: the command with a flag
/// added that takes a number from 0 to `max`.
#[verifier::external_body]
fn add_signed(c: clap::Command, f: &FlagSpec, max: i64) -> (r: clap::Command)
    requires
        f.kind == Kind::Signed(max),
        buildable(f.deep_view()),
    ensures
        parts_of(r) == parts_of(c).push(PartM::Flag(f.deep_view())),
{
    let arg = clap::Arg::new(f.id.clone())
        .short(f.short)
        .long(f.long.clone())
        .aliases(f.alias.clone())
        .global(f.global)
        .require_equals(f.equals)
        .num_args(f.fewest..=1)
        .default_missing_values(f.missing.clone())
        .value_name(f.value_name.clone())
        .help(f.help.clone())
        .value_parser(clap::builder::RangedI64ValueParser::<i64>::new().range(0..=max));
    c.arg(arg)
}

/// `clap::Command::arg` with `RangedU64ValueParser`: the command with a flag
/// added that takes a number from 0 to `max`.
#[verifier::external_body]
fn add_unsigned(c: clap::Command, f: &FlagSpec, max: u64) -> (r: clap::Command)
    requires
        f.kind == Kind::Unsigned(max),
        buildable(f.deep_view()),
    ensures
        parts_of(r) == parts_of(c).push(PartM::Flag(f.deep_view())),
{
    let arg = clap::Arg::new(f.id.clone())
        .short(f.short)
        .long(f.long.clone())
        .aliases(f.alias.clone())
        .global(f.global)
        .require_equals(f.equals)
        .num_args(f.fewest..=1)
        .default_missing_values(f.missing.clone())
        .value_name(f.value_name.clone())
        .help(f.help.clone())
        .value_parser(clap::builder::RangedU64ValueParser::<u64>::new().range(0..=max));
    c.arg(arg)
}

/// `clap::Command::arg` with a function as the parser: the command with a flag
/// added that takes what [`positive_usize`] accepts.
#[verifier::external_body]
fn add_positive(c: clap::Command, f: &FlagSpec) -> (r: clap::Command)
    requires
        f.kind is Positive,
        buildable(f.deep_view()),
    ensures
        parts_of(r) == parts_of(c).push(PartM::Flag(f.deep_view())),
{
    let arg = clap::Arg::new(f.id.clone())
        .short(f.short)
        .long(f.long.clone())
        .aliases(f.alias.clone())
        .global(f.global)
        .require_equals(f.equals)
        .num_args(f.fewest..=1)
        .default_missing_values(f.missing.clone())
        .value_name(f.value_name.clone())
        .help(f.help.clone())
        .value_parser(|s: &str| positive_usize(s));
    c.arg(arg)
}

/// `clap::Command::arg` with `ArgAction::Append` and neither a short nor a long
/// name: the command with any number of arguments added.
#[verifier::external_body]
fn add_files(c: clap::Command, f: &FlagSpec) -> (r: clap::Command)
    requires
        f.kind is Files,
        buildable(f.deep_view()),
    ensures
        parts_of(r) == parts_of(c).push(PartM::Flag(f.deep_view())),
{
    let arg = clap::Arg::new(f.id.clone())
        .value_name(f.value_name.clone())
        .help(f.help.clone())
        .num_args(f.fewest..)
        .action(clap::ArgAction::Append);
    c.arg(arg)
}

/// `clap::Command::arg` with `required`, and neither a short nor a long name: the
/// command with an argument added that must be given.
#[verifier::external_body]
fn add_file(c: clap::Command, f: &FlagSpec) -> (r: clap::Command)
    requires
        f.kind is File,
        buildable(f.deep_view()),
    ensures
        parts_of(r) == parts_of(c).push(PartM::Flag(f.deep_view())),
{
    let arg = clap::Arg::new(f.id.clone())
        .value_name(f.value_name.clone())
        .help(f.help.clone())
        .required(true);
    c.arg(arg)
}

/// `clap::Command::subcommand` and `aliases`: the command with a subcommand added.
#[verifier::external_body]
fn add_command(
    c: clap::Command,
    sub: clap::Command,
    alias: Option<String>,
) -> (r: clap::Command)
    ensures
        parts_of(r) == parts_of(c).push(
            PartM::Command { parts: parts_of(sub), alias: alias.deep_view() },
        ),
{
    c.subcommand(sub.aliases(alias))
}

/// `clap::Command::try_get_matches_from`, with the values of each flag taken
/// out by `ArgMatches::ids` and `get_raw`, and the subcommand by
/// `ArgMatches::subcommand`. clap checks that the flags of a command go
/// together and panics where they do not, so this takes no command but
/// [`program`].
#[verifier::external_body]
fn run_clap(c: clap::Command, argv: &Vec<String>) -> (r: Result<Found, Refusal>)
    requires
        exists|b: BuildM| parts_of(c) == #[trigger] program(b),
    ensures
        found(r) == clap_reads(parts_of(c), argv.deep_view()),
{
    let values = |m: &clap::ArgMatches| {
        let raws = |id| m.get_raw(id).into_iter().flatten().map(|v| v.to_string_lossy().into_owned());
        m.ids().map(|i| Values { id: i.to_string(), raws: raws(i.as_str()).collect() }).collect()
    };
    match c.try_get_matches_from(argv) {
        Err(e) => Err(Refusal { kind: format!("{:?}", e.kind()), text: e.to_string() }),
        Ok(m) => {
            let sub = m.subcommand().map(|(n, s)| SubFound { name: n.to_string(), values: values(s) });
            Ok(Found { values: values(&m), sub })
        },
    }
}

fn load_flags() -> (v: Vec<FlagSpec>)
    ensures
        v.deep_view() == load_table(),
{
    let mut v = no_items::<FlagSpec>();
    put(
        &mut v,
        optional(
            "prove",
            None,
            "prove",
            true,
            "",
            "LEMMA",
            "Prove the selected lemmas (without a value: all lemmas; `=NAME` exact, `=PREFIX*` by prefix; repeatable)",
            Kind::Texts,
        ),
    );
    put(
        &mut v,
        optional(
            "lemma",
            None,
            "lemma",
            true,
            "",
            "LEMMA",
            "Restrict what `--prove` proves (`=NAME` exact or `=PREFIX*`; repeatable)",
            Kind::Texts,
        ),
    );
    put(
        &mut v,
        optional(
            "stop_on_trace",
            None,
            "stop-on-trace",
            true,
            "dfs",
            "METHOD",
            "Cut the search when a trace is found (default: dfs)",
            Kind::Choice { values: stop_values(), any_case: true },
        ),
    );
    put(
        &mut v,
        optional(
            "bound",
            Some('b'),
            "bound",
            true,
            "5",
            "N",
            "Bound the proof-search depth at N; nodes at that depth become `sorry /* bound N hit */` (without a value: 5; absent: no bound)",
            Kind::Signed(0xffff_ffff),
        ),
    );
    put(
        &mut v,
        attached(
            "lemma_timeout",
            None,
            "lemma-timeout",
            true,
            "SECONDS",
            "Give each lemma at most SECONDS of proof search; one that overruns is reported `analysis incomplete` and the run continues (absent: no budget)",
            Kind::Signed(0xffff_ffff),
        ),
    );
    put(
        &mut v,
        attached(
            "without_rule",
            None,
            "without-rule",
            true,
            "RULE",
            "Read the theory as if it had no such rule (repeatable)",
            Kind::Texts,
        ),
    );
    put(
        &mut v,
        attached(
            "without_restriction",
            None,
            "without-restriction",
            true,
            "RESTRICTION",
            "Read the theory as if it had no such restriction (repeatable)",
            Kind::Texts,
        ),
    );
    put(
        &mut v,
        optional(
            "heuristic",
            None,
            "heuristic",
            true,
            "s",
            "RANKING",
            "Goal-ranking sequence; overrides the theory's own heuristic (without a value: `s`, the smart ranking)",
            Kind::Text,
        ),
    );
    put(
        &mut v,
        optional(
            "partial_evaluation",
            None,
            "partial-evaluation",
            true,
            "summary",
            "STYLE",
            "Apply partial evaluation before proving (without a value: summary)",
            Kind::Choice { values: style_values(), any_case: true },
        ),
    );
    put(
        &mut v,
        optional(
            "defines",
            Some('D'),
            "defines",
            true,
            "",
            "SYMBOL",
            "Preprocessor `#define` symbol (`-D=X`; repeatable)",
            Kind::Texts,
        ),
    );
    put(
        &mut v,
        switch("diff", None, "diff", true, "Observational-equivalence mode (not yet supported; errors)"),
    );
    put(
        &mut v,
        switch(
            "quit_on_warning",
            None,
            "quit-on-warning",
            true,
            "Abort on wellformedness warnings",
        ),
    );
    put(&mut v, switch("no_ndc", None, "no-ndc", true, "Skip the no-deconstruction-chain check"));
    put(
        &mut v,
        switch(
            "auto_sources",
            None,
            "auto-sources",
            true,
            "Auto-generate sources lemmas for theories with partial deconstructions",
        ),
    );
    put(
        &mut v,
        optional(
            "oracle_name",
            None,
            "oraclename",
            true,
            "",
            "FILE",
            "Oracle script for `--heuristic=o` rankings (default: derived from the theory filename)",
            Kind::Text,
        ),
    );
    put(
        &mut v,
        switch(
            "oracle_only",
            None,
            "oracle-only",
            true,
            "Stop when the oracle/tactic ranks no goals",
        ),
    );
    put(&mut v, switch("quiet", None, "quiet", true, "Suppress Rust-side diagnostics that have no oracle counterpart"));
    put(&mut v, switch("verbose", Some('v'), "verbose", true, "Accepted for compatibility (the oracle's verbose trace is not supported)"));
    put(
        &mut v,
        optional(
            "open_chains",
            Some('c'),
            "open-chains",
            true,
            "10",
            "N",
            "Cap on open chain constraints during source precomputation (default: 10)",
            Kind::Unsigned(0x7fff_ffff_ffff_ffff),
        ),
    );
    put(
        &mut v,
        optional(
            "saturation",
            Some('s'),
            "saturation",
            true,
            "5",
            "N",
            "Cap on source-saturation iterations (default: 5)",
            Kind::Unsigned(0x7fff_ffff_ffff_ffff),
        ),
    );
    put(
        &mut v,
        optional(
            "derivcheck_timeout",
            Some('d'),
            "derivcheck-timeout",
            true,
            "5",
            "SECONDS",
            "Per-variable message-derivation-check timeout in seconds; 0 disables (default: 5)",
            Kind::Signed(0xffff_ffff),
        ),
    );
    put(
        &mut v,
        switch(
            "proverif_no_reuse_lemmas",
            None,
            "proverif-no-reuse-lemmas",
            true,
            "Accepted for compatibility (ProVerif export is not supported)",
        ),
    );
    put(
        &mut v,
        switch(
            "proverif_no_restrictions",
            None,
            "proverif-no-restrictions",
            true,
            "Accepted for compatibility (ProVerif export is not supported)",
        ),
    );
    put(
        &mut v,
        optional(
            "replication_bound",
            None,
            "replication-bound",
            true,
            "3",
            "N",
            "Accepted for compatibility (DeepSec export is not supported; default: 3)",
            Kind::Signed(0xffff_ffff),
        ),
    );
    assert(v.deep_view() =~= load_table());
    v
}

fn tool_flags() -> (v: Vec<FlagSpec>)
    ensures
        v.deep_view() == tool_table(),
{
    let mut v = no_items::<FlagSpec>();
    put(
        &mut v,
        optional(
            "maude_path",
            None,
            "with-maude",
            true,
            "maude",
            "PATH",
            "Path to the maude binary (default: `maude` on $PATH)",
            Kind::Text,
        ),
    );
    put(
        &mut v,
        optional(
            "dot_path",
            None,
            "with-dot",
            true,
            "dot",
            "PATH",
            "GraphViz binary for interactive graph rendering (default: `dot`)",
            Kind::Text,
        ),
    );
    put(
        &mut v,
        optional(
            "json_path",
            None,
            "with-json",
            true,
            "json",
            "PATH",
            "Render interactive graphs via `<PATH> <img> <json>` instead of dot (without a value: `json`)",
            Kind::Text,
        ),
    );
    put(
        &mut v,
        separate(
            "processors",
            "processors",
            None,
            true,
            "N",
            "Rayon worker-pool size (default: all cores; 1 = sequential output)",
            Kind::Positive,
        ),
    );
    put(
        &mut v,
        separate(
            "maude_processes",
            "maude-processes",
            None,
            true,
            "N",
            "Maude subprocess-pool size for parallel sites (default: one per worker)",
            Kind::Positive,
        ),
    );
    assert(v.deep_view() =~= tool_table());
    v
}

fn batch_flags() -> (v: Vec<FlagSpec>)
    ensures
        v.deep_view() == batch_table(),
{
    let mut v = no_items::<FlagSpec>();
    put(&mut v, switch("no_compress", None, "no-compress", false, "Accepted for compatibility (uncompressed sequent visualization; nothing reads it here)"));
    put(
        &mut v,
        switch(
            "parse_only",
            None,
            "parse-only",
            false,
            "Pretty-print the parsed theory and exit (no wellformedness, no Maude, no proving)",
        ),
    );
    put(
        &mut v,
        switch(
            "precompute_only",
            None,
            "precompute-only",
            false,
            "Run the source precomputation only and print its statistics",
        ),
    );
    put(
        &mut v,
        optional(
            "output_file",
            Some('o'),
            "output",
            false,
            "",
            "FILE",
            "Write the resulting theory to FILE (without a value: the name `-O` derives, so `-O` is then required; absent: stdout)",
            Kind::Text,
        ),
    );
    put(
        &mut v,
        optional(
            "output_dir",
            Some('O'),
            "Output",
            false,
            "",
            "DIR",
            "Write resulting theories into DIR (without a value: the current directory; absent: stdout)",
            Kind::Text,
        ),
    );
    put(
        &mut v,
        optional(
            "output_module",
            Some('m'),
            "output-module",
            false,
            "spthy",
            "MODULE",
            "Translate-only output module (without a value: spthy)",
            Kind::Choice { values: module_values(), any_case: false },
        ),
    );
    put(
        &mut v,
        separate(
            "trace_json",
            "output-json",
            Some("oj"),
            false,
            "FILE",
            "Write JSON serializations of every solved constraint system to FILE",
            Kind::Text,
        ),
    );
    put(
        &mut v,
        separate(
            "trace_dot",
            "output-dot",
            Some("od"),
            false,
            "FILE",
            "Write DOT graphs of every solved constraint system to FILE",
            Kind::Text,
        ),
    );
    put(
        &mut v,
        optional(
            "state_audit",
            None,
            "state-audit",
            false,
            "state-audit.json",
            "FILE",
            "Prove the selected lemmas, write a state-transition audit report to FILE, and exit 2 when a selected property is falsified (without a value: `state-audit.json`)",
            Kind::Text,
        ),
    );
    assert(v.deep_view() =~= batch_table());
    v
}

fn file_arguments() -> (v: Vec<FlagSpec>)
    ensures
        v.deep_view() == file_table(),
{
    let mut v = no_items::<FlagSpec>();
    put(&mut v, positional("files", "FILES", "`.spthy` theory files to process", Kind::Files));
    assert(v.deep_view() =~= file_table());
    v
}

fn web_flags() -> (v: Vec<FlagSpec>)
    ensures
        v.deep_view() == web_table(),
{
    let mut v = no_items::<FlagSpec>();
    put(
        &mut v,
        optional(
            "port",
            Some('p'),
            "port",
            false,
            "3001",
            "PORT",
            "Port to listen on (default: 3001)",
            Kind::Signed(0xffff),
        ),
    );
    put(
        &mut v,
        attached(
            "interface",
            Some('i'),
            "interface",
            false,
            "INTERFACE",
            "Interface to bind: `-i=IP`, or \"*\"/\"*4\"/\"*6\" for all interfaces (default 127.0.0.1)",
            Kind::Text,
        ),
    );
    put(
        &mut v,
        attached(
            "image_format",
            None,
            "image-format",
            false,
            "FORMAT",
            "Graph image format (accepted; rendering currently always uses SVG)",
            Kind::Choice { values: image_values(), any_case: true },
        ),
    );
    put(&mut v, switch("debug", None, "debug", false, "Accepted for compatibility (there is no web debug output)"));
    put(&mut v, switch("no_logging", None, "no-logging", false, "Accepted for compatibility (there is no HTTP request logger to turn off)"));
    put(
        &mut v,
        separate(
            "data_dir",
            "data-dir",
            None,
            false,
            "DIR",
            "Directory with the static web assets (default: auto-detected `data/`)",
            Kind::Text,
        ),
    );
    put(
        &mut v,
        positional(
            "workdir",
            "WORKDIR",
            "Theory files, or a directory of them, to serve",
            Kind::Files,
        ),
    );
    assert(v.deep_view() =~= web_table());
    v
}

fn variants_flags() -> (v: Vec<FlagSpec>)
    ensures
        v.deep_view() == variants_table(),
{
    let mut v = no_items::<FlagSpec>();
    put(
        &mut v,
        optional(
            "output_dir",
            Some('O'),
            "Output",
            false,
            "",
            "DIR",
            "Also write the two variant files under DIR/data/",
            Kind::Text,
        ),
    );
    assert(v.deep_view() =~= variants_table());
    v
}

fn test_arguments() -> (v: Vec<FlagSpec>)
    ensures
        v.deep_view() == test_table(),
{
    let mut v = no_items::<FlagSpec>();
    put(&mut v, positional("files", "FILES", "Accepted for compatibility; ignored", Kind::Files));
    assert(v.deep_view() =~= test_table());
    v
}

fn manifest_arguments() -> (v: Vec<FlagSpec>)
    ensures
        v.deep_view() == manifest_table(),
{
    let mut v = no_items::<FlagSpec>();
    put(&mut v, positional("file", "FILE", "", Kind::File));
    assert(v.deep_view() =~= manifest_table());
    v
}

/// The command with the flag added.
fn add_flag(c: clap::Command, f: &FlagSpec) -> (r: clap::Command)
    requires
        buildable(f.deep_view()),
    ensures
        parts_of(r) == parts_of(c).push(PartM::Flag(f.deep_view())),
{
    match &f.kind {
        Kind::Switch => add_switch(c, f),
        Kind::Text => add_text(c, f),
        Kind::Texts => add_texts(c, f),
        Kind::Choice { values, any_case } => add_choice(c, f, values, *any_case),
        Kind::Signed(max) => add_signed(c, f, *max),
        Kind::Unsigned(max) => add_unsigned(c, f, *max),
        Kind::Positive => add_positive(c, f),
        Kind::Files => add_files(c, f),
        Kind::File => add_file(c, f),
    }
}

/// Whether clap takes all of these flags.
pub open spec fn all_buildable(flags: Seq<FlagM>) -> bool {
    forall|i: int| 0 <= i < flags.len() ==> buildable(#[trigger] flags[i])
}

/// clap takes the flags of the program.
proof fn lemma_tables()
    ensures
        all_buildable(load_table()),
        all_buildable(tool_table()),
        all_buildable(batch_table()),
        all_buildable(file_table()),
        all_buildable(web_table()),
        all_buildable(variants_table()),
        all_buildable(test_table()),
        all_buildable(manifest_table()),
{
    reveal(optional_row);
    reveal(attached_row);
    reveal(separate_row);
    reveal(switch_row);
    reveal(positional_row);
}

/// The command with the flags added.
fn add_flags(c: clap::Command, flags: &Vec<FlagSpec>) -> (r: clap::Command)
    requires
        all_buildable(flags.deep_view()),
    ensures
        parts_of(r) == parts_of(c) + flag_parts(flags.deep_view()),
{
    let ghost all = flag_parts(flags.deep_view());
    let ghost start = parts_of(c);
    let mut r = c;
    let mut i: usize = 0;
    assert(parts_of(r) =~= start + all.take(0));
    while i < flags.len()
        invariant
            i <= flags@.len(),
            all_buildable(flags.deep_view()),
            all == flag_parts(flags.deep_view()),
            parts_of(r) == start + all.take(i as int),
        decreases flags@.len() - i,
    {
        assert(flags.deep_view()[i as int] == flags@[i as int].deep_view());
        r = add_flag(r, &flags[i]);
        i = i + 1;
        assert(parts_of(r) =~= start + all.take(i as int));
    }
    assert(all.take(flags@.len() as int) =~= all);
    r
}

fn subcommand(name: &str, about: &str, flags: &Vec<FlagSpec>) -> (r: clap::Command)
    requires
        all_buildable(flags.deep_view()),
    ensures
        parts_of(r) == seq![PartM::Named { name: name@, about: about@ }] + flag_parts(
            flags.deep_view(),
        ),
{
    add_flags(new_command(name, about), flags)
}

fn long_version_text(build: &Build) -> (r: String)
    ensures
        r@ == long_version(build.deep_view()),
{
    let mut r = "0.1.0".to_string();
    r.push_str("\ngit revision ");
    r.push_str(&build.revision);
    r.push_str(" (branch ");
    r.push_str(&build.branch);
    r.push_str(")\ncompiled at ");
    r.push_str(&build.timestamp);
    r
}

fn help_layout_text() -> (r: String)
    ensures
        r@ == help_layout(),
{
    let mut r =
        "{before-help}{about-with-newline}\n{usage-heading} {usage}\n\nCommands:\n".to_string();
    r.push_str("  interactive  Serve the interactive web UI\n");
    r.push_str("  variants     Dump the DH and bilinear-pairing intruder-rule variants\n");
    r.push_str("  test         Self-test the installation (maude and GraphViz probes)\n");
    r.push_str("  help         Print this message or the help of the given subcommand(s)\n\n");
    r.push_str("Arguments:\n{positionals}\n\nOptions:\n{options}{after-help}");
    r
}

/// The program.
fn program_command(build: &Build) -> (r: clap::Command)
    ensures
        parts_of(r) == program(build.deep_view()),
{
    proof {
        lemma_tables();
    }
    let c = as_program(
        new_command("tamarin-rs", "Security protocol analysis and verification"),
        "0.1.0",
        &long_version_text(build),
        true,
        true,
    );
    let c = with_help(c, &help_layout_text());
    let c = add_flags(c, &load_flags());
    let c = add_flags(c, &tool_flags());
    let c = add_flags(c, &batch_flags());
    let c = add_flags(c, &file_arguments());
    let s = subcommand("interactive", "Serve the interactive web UI", &web_flags());
    let c = add_command(c, s, None);
    let s = subcommand(
        "variants",
        "Dump the DH and bilinear-pairing intruder-rule variants",
        &variants_flags(),
    );
    let c = add_command(c, s, None);
    let s = subcommand(
        "test",
        "Self-test the installation (maude and GraphViz probes)",
        &test_arguments(),
    );
    let c = add_command(c, s, Some("test-prover".to_string()));
    let s = subcommand(
        "input-manifest",
        "Print parser-selected source and oracle inputs as tagged TSV",
        &manifest_arguments(),
    );
    let c = add_command(c, s, None);
    assert(parts_of(c) =~= program(build.deep_view()));
    c
}

/// What the command line holds.
pub fn read_command_line(argv: &Vec<String>, build: &Build) -> (r: Result<Found, Refusal>)
    ensures
        found(r) == clap_reads(program(build.deep_view()), argv.deep_view()),
{
    run_clap(program_command(build), argv)
}

/// Whether a value of the flag can only follow an equals sign.
pub open spec fn equals_only(f: FlagM) -> bool {
    f.kind is Switch || f.equals
}

/// What a command line means does not hang on what stands behind a flag:
/// the flags that say how theories are read and proved take values behind an
/// equals sign only, and so do the others but for those named here. They may
/// stand on either side of a subcommand. A flag that is given again counts anew.
#[verifier::spinoff_prover]
pub proof fn law_values_follow_equals_signs(b: BuildM)
    ensures
        forall|i: int|
            0 <= i < load_table().len() ==> equals_only(#[trigger] load_table()[i])
                && load_table()[i].global,
        forall|i: int|
            0 <= i < tool_table().len() ==> (equals_only(#[trigger] tool_table()[i])
                || tool_table()[i].id == "processors"@ || tool_table()[i].id
                == "maude_processes"@) && tool_table()[i].global,
        forall|i: int|
            0 <= i < batch_table().len() ==> (equals_only(#[trigger] batch_table()[i])
                || batch_table()[i].id == "trace_json"@ || batch_table()[i].id == "trace_dot"@)
                && !batch_table()[i].global,
        program(b)[1] == (PartM::Program {
            version: version(),
            long_version: long_version(b),
            help_if_empty: true,
            override_self: true,
        }),
{
    reveal(optional_row);
    reveal(attached_row);
    reveal(separate_row);
    reveal(switch_row);
}

} // verus!
