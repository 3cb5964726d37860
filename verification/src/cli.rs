//! Command lines.

use crate::command::{
    clap_reads, found, number_upto, parse_number, positive_text, positive_usize, program,
    read_command_line, Build, BuildM, Found, FoundM, RefusalM, SubFound, SubFoundM, Values,
    ValuesM,
};
use crate::model::{no_items, one_item, put, put_all};
use crate::text::{chars_of, same, to_upper, upper_text};
use crate::values::copy_texts;
use vstd::prelude::*;

verus! {

/// What to do when a trace is found.
#[derive(Debug, Clone, Copy, PartialEq, Eq, Structural)]
pub enum StopOnTrace {
    Dfs,
    Bfs,
    SeqDfs,
    Sorry,
    /// `none`: the search goes on.
    Never,
}

/// How partial evaluation is shown.
#[derive(Debug, Clone, Copy, PartialEq, Eq, Structural)]
pub enum PartialEval {
    Summary,
    Verbose,
}

/// What the program is asked to do.
#[derive(Debug, Clone, Copy, PartialEq, Eq, Structural, Default)]
pub enum Subcommand {
    /// Prove and print theories.
    #[default]
    Batch,
    /// Serve the web interface.
    Interactive,
    /// Print the variants of the intruder rules.
    Variants,
    /// Test the installation.
    Test,
    /// List the files a theory is read from.
    InputManifest,
}

/// The format of images in the web interface.
#[derive(Debug, Clone, Copy, PartialEq, Eq, Structural)]
pub enum ImageFormat {
    Png,
    Svg,
}

/// The options of a run.
#[derive(Debug, Clone, Default)]
pub struct Args {
    pub subcommand: Subcommand,
    pub in_files: Vec<String>,
    /// Lemmas are to be proved.
    pub prove_mode: bool,
    /// The values of `--prove`, and then those of `--lemma`, each the last one first.
    pub lemma_names: Vec<String>,
    pub stop_on_trace: Option<StopOnTrace>,
    pub bound: Option<u32>,
    /// Seconds of search for each lemma.
    pub lemma_timeout: Option<u32>,
    /// Rules to read the theory without.
    pub without_rule: Vec<String>,
    /// Restrictions to read the theory without.
    pub without_restriction: Vec<String>,
    pub heuristic: Option<String>,
    pub partial_evaluation: Option<PartialEval>,
    pub defines: Vec<String>,
    pub diff: bool,
    pub quit_on_warning: bool,
    pub no_ndc: bool,
    pub auto_sources: bool,
    pub oracle_name: Option<String>,
    pub oracle_only: bool,
    pub quiet: bool,
    pub verbose: bool,
    pub open_chains: Option<u64>,
    pub saturation: Option<u64>,
    pub derivcheck_timeout: Option<u32>,
    pub proverif_no_reuse_lemmas: bool,
    pub proverif_no_restrictions: bool,
    pub replication_bound: Option<u32>,
    pub no_compress: bool,
    pub parse_only: bool,
    pub precompute_only: bool,
    /// Workers; all of the machine where none are given.
    pub processors: Option<usize>,
    /// Maude processes; one for each worker where none are given.
    pub maude_processes: Option<usize>,
    pub output_file: Option<String>,
    pub output_dir: Option<String>,
    pub output_module: Option<String>,
    pub trace_json: Option<String>,
    pub trace_dot: Option<String>,
    /// Where the audit report is written.
    pub state_audit: Option<String>,
    pub maude_path: Option<String>,
    pub dot_path: Option<String>,
    pub json_path: Option<String>,
    pub port: Option<u16>,
    pub interface: Option<String>,
    pub image_format: Option<ImageFormat>,
    pub debug: bool,
    pub no_logging: bool,
    pub data_dir: Option<String>,
}

pub struct ArgsM {
    pub subcommand: Subcommand,
    pub in_files: Seq<Seq<char>>,
    pub prove_mode: bool,
    pub lemma_names: Seq<Seq<char>>,
    pub stop_on_trace: Option<StopOnTrace>,
    pub bound: Option<u32>,
    pub lemma_timeout: Option<u32>,
    pub without_rule: Seq<Seq<char>>,
    pub without_restriction: Seq<Seq<char>>,
    pub heuristic: Option<Seq<char>>,
    pub partial_evaluation: Option<PartialEval>,
    pub defines: Seq<Seq<char>>,
    pub diff: bool,
    pub quit_on_warning: bool,
    pub no_ndc: bool,
    pub auto_sources: bool,
    pub oracle_name: Option<Seq<char>>,
    pub oracle_only: bool,
    pub quiet: bool,
    pub verbose: bool,
    pub open_chains: Option<u64>,
    pub saturation: Option<u64>,
    pub derivcheck_timeout: Option<u32>,
    pub proverif_no_reuse_lemmas: bool,
    pub proverif_no_restrictions: bool,
    pub replication_bound: Option<u32>,
    pub no_compress: bool,
    pub parse_only: bool,
    pub precompute_only: bool,
    pub processors: Option<usize>,
    pub maude_processes: Option<usize>,
    pub output_file: Option<Seq<char>>,
    pub output_dir: Option<Seq<char>>,
    pub output_module: Option<Seq<char>>,
    pub trace_json: Option<Seq<char>>,
    pub trace_dot: Option<Seq<char>>,
    pub state_audit: Option<Seq<char>>,
    pub maude_path: Option<Seq<char>>,
    pub dot_path: Option<Seq<char>>,
    pub json_path: Option<Seq<char>>,
    pub port: Option<u16>,
    pub interface: Option<Seq<char>>,
    pub image_format: Option<ImageFormat>,
    pub debug: bool,
    pub no_logging: bool,
    pub data_dir: Option<Seq<char>>,
}

impl DeepView for Args {
    type V = ArgsM;

    open spec fn deep_view(&self) -> ArgsM {
        ArgsM {
            subcommand: self.subcommand,
            in_files: self.in_files.deep_view(),
            prove_mode: self.prove_mode,
            lemma_names: self.lemma_names.deep_view(),
            stop_on_trace: self.stop_on_trace,
            bound: self.bound,
            lemma_timeout: self.lemma_timeout,
            without_rule: self.without_rule.deep_view(),
            without_restriction: self.without_restriction.deep_view(),
            heuristic: self.heuristic.deep_view(),
            partial_evaluation: self.partial_evaluation,
            defines: self.defines.deep_view(),
            diff: self.diff,
            quit_on_warning: self.quit_on_warning,
            no_ndc: self.no_ndc,
            auto_sources: self.auto_sources,
            oracle_name: self.oracle_name.deep_view(),
            oracle_only: self.oracle_only,
            quiet: self.quiet,
            verbose: self.verbose,
            open_chains: self.open_chains,
            saturation: self.saturation,
            derivcheck_timeout: self.derivcheck_timeout,
            proverif_no_reuse_lemmas: self.proverif_no_reuse_lemmas,
            proverif_no_restrictions: self.proverif_no_restrictions,
            replication_bound: self.replication_bound,
            no_compress: self.no_compress,
            parse_only: self.parse_only,
            precompute_only: self.precompute_only,
            processors: self.processors,
            maude_processes: self.maude_processes,
            output_file: self.output_file.deep_view(),
            output_dir: self.output_dir.deep_view(),
            output_module: self.output_module.deep_view(),
            trace_json: self.trace_json.deep_view(),
            trace_dot: self.trace_dot.deep_view(),
            state_audit: self.state_audit.deep_view(),
            maude_path: self.maude_path.deep_view(),
            dot_path: self.dot_path.deep_view(),
            json_path: self.json_path.deep_view(),
            port: self.port,
            interface: self.interface.deep_view(),
            image_format: self.image_format,
            debug: self.debug,
            no_logging: self.no_logging,
            data_dir: self.data_dir.deep_view(),
        }
    }
}

/// The kinds of errors in a command line.
#[derive(Debug, Clone, Copy, PartialEq, Eq, Structural)]
pub enum ErrorKind {
    InvalidValue,
    UnknownArgument,
    InvalidSubcommand,
    NoEquals,
    ValueValidation,
    TooManyValues,
    TooFewValues,
    WrongNumberOfValues,
    ArgumentConflict,
    MissingRequiredArgument,
    MissingSubcommand,
    InvalidUtf8,
    DisplayHelp,
    DisplayHelpOnMissingArgumentOrSubcommand,
    DisplayVersion,
    Other,
}

/// The kind of that name.
pub open spec fn kind_named(name: Seq<char>) -> ErrorKind {
    if name == "InvalidValue"@ {
        ErrorKind::InvalidValue
    } else if name == "UnknownArgument"@ {
        ErrorKind::UnknownArgument
    } else if name == "InvalidSubcommand"@ {
        ErrorKind::InvalidSubcommand
    } else if name == "NoEquals"@ {
        ErrorKind::NoEquals
    } else if name == "ValueValidation"@ {
        ErrorKind::ValueValidation
    } else if name == "TooManyValues"@ {
        ErrorKind::TooManyValues
    } else if name == "TooFewValues"@ {
        ErrorKind::TooFewValues
    } else if name == "WrongNumberOfValues"@ {
        ErrorKind::WrongNumberOfValues
    } else if name == "ArgumentConflict"@ {
        ErrorKind::ArgumentConflict
    } else if name == "MissingRequiredArgument"@ {
        ErrorKind::MissingRequiredArgument
    } else if name == "MissingSubcommand"@ {
        ErrorKind::MissingSubcommand
    } else if name == "InvalidUtf8"@ {
        ErrorKind::InvalidUtf8
    } else if name == "DisplayHelp"@ {
        ErrorKind::DisplayHelp
    } else if name == "DisplayHelpOnMissingArgumentOrSubcommand"@ {
        ErrorKind::DisplayHelpOnMissingArgumentOrSubcommand
    } else if name == "DisplayVersion"@ {
        ErrorKind::DisplayVersion
    } else {
        ErrorKind::Other
    }
}

fn kind_of(name: &str) -> (r: ErrorKind)
    ensures
        r == kind_named(name@),
{
    if same(name, "InvalidValue") {
        ErrorKind::InvalidValue
    } else if same(name, "UnknownArgument") {
        ErrorKind::UnknownArgument
    } else if same(name, "InvalidSubcommand") {
        ErrorKind::InvalidSubcommand
    } else if same(name, "NoEquals") {
        ErrorKind::NoEquals
    } else if same(name, "ValueValidation") {
        ErrorKind::ValueValidation
    } else if same(name, "TooManyValues") {
        ErrorKind::TooManyValues
    } else if same(name, "TooFewValues") {
        ErrorKind::TooFewValues
    } else if same(name, "WrongNumberOfValues") {
        ErrorKind::WrongNumberOfValues
    } else if same(name, "ArgumentConflict") {
        ErrorKind::ArgumentConflict
    } else if same(name, "MissingRequiredArgument") {
        ErrorKind::MissingRequiredArgument
    } else if same(name, "MissingSubcommand") {
        ErrorKind::MissingSubcommand
    } else if same(name, "InvalidUtf8") {
        ErrorKind::InvalidUtf8
    } else if same(name, "DisplayHelp") {
        ErrorKind::DisplayHelp
    } else if same(name, "DisplayHelpOnMissingArgumentOrSubcommand") {
        ErrorKind::DisplayHelpOnMissingArgumentOrSubcommand
    } else if same(name, "DisplayVersion") {
        ErrorKind::DisplayVersion
    } else {
        ErrorKind::Other
    }
}

/// An error in a command line, or a text that was asked for in place of a run.
#[derive(Debug)]
pub struct ArgsError {
    pub kind: ErrorKind,
    pub text: String,
}

pub struct ArgsErrorM {
    pub kind: ErrorKind,
    pub text: Seq<char>,
}

impl DeepView for ArgsError {
    type V = ArgsErrorM;

    open spec fn deep_view(&self) -> ArgsErrorM {
        ArgsErrorM { kind: self.kind, text: self.text@ }
    }
}

impl ArgsError {
    pub fn kind(&self) -> (k: ErrorKind)
        ensures
            k == self.kind,
    {
        self.kind
    }

    /// The text to show.
    pub fn render(&self) -> (s: &str)
        ensures
            s@ == self.text@,
    {
        self.text.as_str()
    }

    /// Whether the text was asked for.
    pub open spec fn asked_for(self) -> bool {
        self.kind == ErrorKind::DisplayHelp || self.kind == ErrorKind::DisplayVersion
    }

    /// The exit code of a run that ends with this text.
    pub fn exit_code(&self) -> (n: i32)
        ensures
            n == if self.asked_for() {
                0i32
            } else {
                2i32
            },
    {
        if self.kind == ErrorKind::DisplayHelp || self.kind == ErrorKind::DisplayVersion {
            0
        } else {
            2
        }
    }
}

/// The values of the flag.
pub open spec fn raws_of(vs: Seq<ValuesM>, id: Seq<char>, i: int) -> Seq<Seq<char>>
    decreases vs.len() - i,
{
    if i < 0 || i >= vs.len() {
        Seq::empty()
    } else if vs[i].id == id {
        vs[i].raws
    } else {
        raws_of(vs, id, i + 1)
    }
}

/// The value of the flag.
#[verifier::opaque]
pub open spec fn text_of(vs: Seq<ValuesM>, id: Seq<char>) -> Option<Seq<char>> {
    let r = raws_of(vs, id, 0);
    if r.len() > 0 {
        Some(r[0])
    } else {
        None
    }
}

/// Whether the flag was given.
#[verifier::opaque]
pub open spec fn switched(vs: Seq<ValuesM>, id: Seq<char>) -> bool {
    text_of(vs, id) == Some("true"@)
}

/// The number that the flag was given, if it is no larger than `max`.
pub open spec fn number_of(vs: Seq<ValuesM>, id: Seq<char>, max: int) -> Option<int> {
    match text_of(vs, id) {
        Some(t) => number_upto(t, max),
        None => None,
    }
}

#[verifier::opaque]
pub open spec fn u16_of(vs: Seq<ValuesM>, id: Seq<char>) -> Option<u16> {
    match number_of(vs, id, u16::MAX as int) {
        Some(n) => Some(n as u16),
        None => None,
    }
}

#[verifier::opaque]
pub open spec fn u32_of(vs: Seq<ValuesM>, id: Seq<char>) -> Option<u32> {
    match number_of(vs, id, u32::MAX as int) {
        Some(n) => Some(n as u32),
        None => None,
    }
}

#[verifier::opaque]
pub open spec fn u63_of(vs: Seq<ValuesM>, id: Seq<char>) -> Option<u64> {
    match number_of(vs, id, i64::MAX as int) {
        Some(n) => Some(n as u64),
        None => None,
    }
}

#[verifier::opaque]
pub open spec fn pool_of(vs: Seq<ValuesM>, id: Seq<char>) -> Option<usize> {
    match text_of(vs, id) {
        Some(t) => match positive_text(t) {
            Ok(n) => Some(n),
            Err(_) => None,
        },
        None => None,
    }
}

/// The way to stop that the flag names, whatever the case of its letters.
#[verifier::opaque]
pub open spec fn stop_of(vs: Seq<ValuesM>, id: Seq<char>) -> Option<StopOnTrace> {
    match text_of(vs, id) {
        None => None,
        Some(t) => {
            let u = upper_text(t);
            if u == "DFS"@ {
                Some(StopOnTrace::Dfs)
            } else if u == "BFS"@ {
                Some(StopOnTrace::Bfs)
            } else if u == "SEQDFS"@ {
                Some(StopOnTrace::SeqDfs)
            } else if u == "SORRY"@ {
                Some(StopOnTrace::Sorry)
            } else if u == "NONE"@ {
                Some(StopOnTrace::Never)
            } else {
                None
            }
        },
    }
}

#[verifier::opaque]
pub open spec fn style_of(vs: Seq<ValuesM>, id: Seq<char>) -> Option<PartialEval> {
    match text_of(vs, id) {
        None => None,
        Some(t) => {
            let u = upper_text(t);
            if u == "SUMMARY"@ {
                Some(PartialEval::Summary)
            } else if u == "VERBOSE"@ {
                Some(PartialEval::Verbose)
            } else {
                None
            }
        },
    }
}

#[verifier::opaque]
pub open spec fn image_of(vs: Seq<ValuesM>, id: Seq<char>) -> Option<ImageFormat> {
    match text_of(vs, id) {
        None => None,
        Some(t) => {
            let u = upper_text(t);
            if u == "PNG"@ {
                Some(ImageFormat::Png)
            } else if u == "SVG"@ {
                Some(ImageFormat::Svg)
            } else {
                None
            }
        },
    }
}

/// The options that the flags of the program give.
#[verifier::opaque]
pub open spec fn loaded(vs: Seq<ValuesM>) -> ArgsM {
    ArgsM {
        subcommand: Subcommand::Batch,
        in_files: Seq::empty(),
        prove_mode: raws_of(vs, "prove"@, 0).len() > 0 || text_of(vs, "state_audit"@) is Some,
        lemma_names: raws_of(vs, "prove"@, 0).reverse() + raws_of(vs, "lemma"@, 0).reverse(),
        stop_on_trace: stop_of(vs, "stop_on_trace"@),
        bound: u32_of(vs, "bound"@),
        lemma_timeout: u32_of(vs, "lemma_timeout"@),
        without_rule: raws_of(vs, "without_rule"@, 0),
        without_restriction: raws_of(vs, "without_restriction"@, 0),
        heuristic: text_of(vs, "heuristic"@),
        partial_evaluation: style_of(vs, "partial_evaluation"@),
        defines: raws_of(vs, "defines"@, 0),
        diff: switched(vs, "diff"@),
        quit_on_warning: switched(vs, "quit_on_warning"@),
        no_ndc: switched(vs, "no_ndc"@),
        auto_sources: switched(vs, "auto_sources"@),
        oracle_name: text_of(vs, "oracle_name"@),
        oracle_only: switched(vs, "oracle_only"@),
        quiet: switched(vs, "quiet"@),
        verbose: switched(vs, "verbose"@),
        open_chains: u63_of(vs, "open_chains"@),
        saturation: u63_of(vs, "saturation"@),
        derivcheck_timeout: u32_of(vs, "derivcheck_timeout"@),
        proverif_no_reuse_lemmas: switched(vs, "proverif_no_reuse_lemmas"@),
        proverif_no_restrictions: switched(vs, "proverif_no_restrictions"@),
        replication_bound: u32_of(vs, "replication_bound"@),
        no_compress: switched(vs, "no_compress"@),
        parse_only: switched(vs, "parse_only"@),
        precompute_only: switched(vs, "precompute_only"@),
        processors: pool_of(vs, "processors"@),
        maude_processes: pool_of(vs, "maude_processes"@),
        output_file: text_of(vs, "output_file"@),
        output_dir: text_of(vs, "output_dir"@),
        output_module: text_of(vs, "output_module"@),
        trace_json: text_of(vs, "trace_json"@),
        trace_dot: text_of(vs, "trace_dot"@),
        state_audit: text_of(vs, "state_audit"@),
        maude_path: text_of(vs, "maude_path"@),
        dot_path: text_of(vs, "dot_path"@),
        json_path: text_of(vs, "json_path"@),
        port: None,
        interface: None,
        image_format: None,
        debug: false,
        no_logging: false,
        data_dir: None,
    }
}

/// The first flag of the batch mode that was given.
pub open spec fn batch_flag(vs: Seq<ValuesM>) -> Option<Seq<char>> {
    if switched(vs, "no_compress"@) {
        Some("--no-compress"@)
    } else if switched(vs, "parse_only"@) {
        Some("--parse-only"@)
    } else if switched(vs, "precompute_only"@) {
        Some("--precompute-only"@)
    } else if text_of(vs, "output_file"@) is Some {
        Some("-o/--output"@)
    } else if text_of(vs, "output_dir"@) is Some {
        Some("-O/--Output"@)
    } else if text_of(vs, "output_module"@) is Some {
        Some("-m/--output-module"@)
    } else if text_of(vs, "trace_json"@) is Some {
        Some("--output-json"@)
    } else if text_of(vs, "trace_dot"@) is Some {
        Some("--output-dot"@)
    } else if text_of(vs, "state_audit"@) is Some {
        Some("--state-audit"@)
    } else {
        None
    }
}

/// The error for a flag of the batch mode before a subcommand.
pub open spec fn batch_conflict(flag: Seq<char>) -> ArgsErrorM {
    ArgsErrorM {
        kind: ErrorKind::ArgumentConflict,
        text: "error: "@ + flag
            + " is a batch-mode flag and cannot be used with a subcommand\n"@,
    }
}

/// The options with what `interactive` gives.
#[verifier::opaque]
pub open spec fn with_web(a: ArgsM, vs: Seq<ValuesM>) -> ArgsM {
    ArgsM {
        subcommand: Subcommand::Interactive,
        in_files: raws_of(vs, "workdir"@, 0),
        port: u16_of(vs, "port"@),
        interface: text_of(vs, "interface"@),
        image_format: image_of(vs, "image_format"@),
        debug: switched(vs, "debug"@),
        no_logging: switched(vs, "no_logging"@),
        data_dir: text_of(vs, "data_dir"@),
        ..a
    }
}

/// The options with what `variants` gives.
#[verifier::opaque]
pub open spec fn with_variants(a: ArgsM, vs: Seq<ValuesM>) -> ArgsM {
    ArgsM {
        subcommand: Subcommand::Variants,
        output_dir: text_of(vs, "output_dir"@),
        ..a
    }
}

/// The options of a subcommand that takes files.
#[verifier::opaque]
pub open spec fn with_files(a: ArgsM, subcommand: Subcommand, in_files: Seq<Seq<char>>) -> ArgsM {
    ArgsM { subcommand, in_files, ..a }
}

/// The options with what the subcommand gives.
pub open spec fn with_subcommand(a: ArgsM, s: SubFoundM) -> ArgsM {
    if s.name == "interactive"@ {
        with_web(a, s.values)
    } else if s.name == "variants"@ {
        with_variants(a, s.values)
    } else if s.name == "test"@ {
        with_files(a, Subcommand::Test, raws_of(s.values, "files"@, 0))
    } else {
        with_files(a, Subcommand::InputManifest, raws_of(s.values, "file"@, 0))
    }
}

/// The options that a command line gives. Where a subcommand other than
/// `input-manifest` stands behind a flag of the batch mode, that is an error.
pub open spec fn options_of(f: FoundM) -> Result<ArgsM, ArgsErrorM> {
    match f.sub {
        None => Ok(
            with_files(loaded(f.values), Subcommand::Batch, raws_of(f.values, "files"@, 0)),
        ),
        Some(s) => match batch_flag(f.values) {
            Some(flag) => if s.name != "input-manifest"@ {
                Err(batch_conflict(flag))
            } else {
                Ok(with_subcommand(loaded(f.values), s))
            },
            None => Ok(with_subcommand(loaded(f.values), s)),
        },
    }
}

/// The error that a refusal makes.
pub open spec fn refused(r: RefusalM) -> ArgsErrorM {
    ArgsErrorM { kind: kind_named(r.kind), text: r.text }
}

/// The options, or the error, of the arguments behind the program's name.
pub open spec fn parsed_args(raw: Seq<Seq<char>>, build: BuildM) -> Result<ArgsM, ArgsErrorM> {
    match clap_reads(program(build), seq!["tamarin-rs"@] + raw) {
        Ok(f) => options_of(f),
        Err(r) => Err(refused(r)),
    }
}

fn given_raws(vs: &Vec<Values>, id: &str) -> (r: Vec<String>)
    ensures
        r.deep_view() == raws_of(vs.deep_view(), id@, 0),
{
    let mut i: usize = 0;
    while i < vs.len()
        invariant
            i <= vs@.len(),
            raws_of(vs.deep_view(), id@, i as int) == raws_of(vs.deep_view(), id@, 0),
        decreases vs@.len() - i,
    {
        assert(vs.deep_view()[i as int] == vs@[i as int].deep_view());
        if same(&vs[i].id, id) {
            return copy_texts(&vs[i].raws);
        }
        i = i + 1;
    }
    no_items::<String>()
}

fn given_text(vs: &Vec<Values>, id: &str) -> (r: Option<String>)
    ensures
        r.deep_view() == text_of(vs.deep_view(), id@),
{
    proof {
        reveal(text_of);
    }
    let v = given_raws(vs, id);
    if v.len() > 0 {
        assert(v.deep_view()[0] == v@[0]@);
        Some(v[0].clone())
    } else {
        None
    }
}

fn is_switched(vs: &Vec<Values>, id: &str) -> (r: bool)
    ensures
        r == switched(vs.deep_view(), id@),
{
    proof {
        reveal(switched);
    }
    match given_text(vs, id) {
        Some(t) => same(&t, "true"),
        None => false,
    }
}

fn given_number(vs: &Vec<Values>, id: &str, max: u64) -> (r: Option<u64>)
    ensures
        match number_of(vs.deep_view(), id@, max as int) {
            Some(n) => r is Some && r->0 == n,
            None => r is None,
        },
        r matches Some(n) ==> n <= max,
{
    match given_text(vs, id) {
        Some(t) => parse_number(&t, max),
        None => None,
    }
}

fn given_u16(vs: &Vec<Values>, id: &str) -> (r: Option<u16>)
    ensures
        r == u16_of(vs.deep_view(), id@),
{
    proof {
        reveal(u16_of);
    }
    match given_number(vs, id, u16::MAX as u64) {
        Some(n) => Some(n as u16),
        None => None,
    }
}

fn given_u32(vs: &Vec<Values>, id: &str) -> (r: Option<u32>)
    ensures
        r == u32_of(vs.deep_view(), id@),
{
    proof {
        reveal(u32_of);
    }
    match given_number(vs, id, u32::MAX as u64) {
        Some(n) => Some(n as u32),
        None => None,
    }
}

fn given_u63(vs: &Vec<Values>, id: &str) -> (r: Option<u64>)
    ensures
        r == u63_of(vs.deep_view(), id@),
{
    proof {
        reveal(u63_of);
    }
    given_number(vs, id, i64::MAX as u64)
}

fn given_pool(vs: &Vec<Values>, id: &str) -> (r: Option<usize>)
    ensures
        r == pool_of(vs.deep_view(), id@),
{
    proof {
        reveal(pool_of);
    }
    match given_text(vs, id) {
        Some(t) => match positive_usize(&t) {
            Ok(n) => Some(n),
            Err(_) => None,
        },
        None => None,
    }
}

fn given_stop(vs: &Vec<Values>, id: &str) -> (r: Option<StopOnTrace>)
    ensures
        r == stop_of(vs.deep_view(), id@),
{
    proof {
        reveal(stop_of);
    }
    match given_text(vs, id) {
        None => None,
        Some(t) => {
            let u = to_upper(&t);
            if same(&u, "DFS") {
                Some(StopOnTrace::Dfs)
            } else if same(&u, "BFS") {
                Some(StopOnTrace::Bfs)
            } else if same(&u, "SEQDFS") {
                Some(StopOnTrace::SeqDfs)
            } else if same(&u, "SORRY") {
                Some(StopOnTrace::Sorry)
            } else if same(&u, "NONE") {
                Some(StopOnTrace::Never)
            } else {
                None
            }
        },
    }
}

fn given_style(vs: &Vec<Values>, id: &str) -> (r: Option<PartialEval>)
    ensures
        r == style_of(vs.deep_view(), id@),
{
    proof {
        reveal(style_of);
    }
    match given_text(vs, id) {
        None => None,
        Some(t) => {
            let u = to_upper(&t);
            if same(&u, "SUMMARY") {
                Some(PartialEval::Summary)
            } else if same(&u, "VERBOSE") {
                Some(PartialEval::Verbose)
            } else {
                None
            }
        },
    }
}

fn given_image(vs: &Vec<Values>, id: &str) -> (r: Option<ImageFormat>)
    ensures
        r == image_of(vs.deep_view(), id@),
{
    proof {
        reveal(image_of);
    }
    match given_text(vs, id) {
        None => None,
        Some(t) => {
            let u = to_upper(&t);
            if same(&u, "PNG") {
                Some(ImageFormat::Png)
            } else if same(&u, "SVG") {
                Some(ImageFormat::Svg)
            } else {
                None
            }
        },
    }
}

fn reversed(v: &Vec<String>) -> (r: Vec<String>)
    ensures
        r.deep_view() == v.deep_view().reverse(),
{
    let ghost all = v.deep_view().reverse();
    let mut r = no_items::<String>();
    let mut i: usize = v.len();
    while i > 0
        invariant
            i <= v@.len(),
            all == v.deep_view().reverse(),
            r.deep_view() == all.take(v@.len() - i),
        decreases i,
    {
        i = i - 1;
        put(&mut r, v[i].clone());
        assert(r.deep_view() =~= all.take(v@.len() - i));
    }
    assert(r.deep_view() =~= all);
    r
}

#[verifier::spinoff_prover]
fn load(vs: &Vec<Values>) -> (a: Args)
    ensures
        a.deep_view() == loaded(vs.deep_view()),
{
    proof {
        reveal(loaded);
    }
    let prove = given_raws(vs, "prove");
    let audit = given_text(vs, "state_audit");
    let prove_mode = prove.len() > 0 || audit.is_some();
    let mut lemma_names = reversed(&prove);
    put_all(&mut lemma_names, reversed(&given_raws(vs, "lemma")));
    Args {
        subcommand: Subcommand::Batch,
        in_files: no_items::<String>(),
        prove_mode,
        lemma_names,
        stop_on_trace: given_stop(vs, "stop_on_trace"),
        bound: given_u32(vs, "bound"),
        lemma_timeout: given_u32(vs, "lemma_timeout"),
        without_rule: given_raws(vs, "without_rule"),
        without_restriction: given_raws(vs, "without_restriction"),
        heuristic: given_text(vs, "heuristic"),
        partial_evaluation: given_style(vs, "partial_evaluation"),
        defines: given_raws(vs, "defines"),
        diff: is_switched(vs, "diff"),
        quit_on_warning: is_switched(vs, "quit_on_warning"),
        no_ndc: is_switched(vs, "no_ndc"),
        auto_sources: is_switched(vs, "auto_sources"),
        oracle_name: given_text(vs, "oracle_name"),
        oracle_only: is_switched(vs, "oracle_only"),
        quiet: is_switched(vs, "quiet"),
        verbose: is_switched(vs, "verbose"),
        open_chains: given_u63(vs, "open_chains"),
        saturation: given_u63(vs, "saturation"),
        derivcheck_timeout: given_u32(vs, "derivcheck_timeout"),
        proverif_no_reuse_lemmas: is_switched(vs, "proverif_no_reuse_lemmas"),
        proverif_no_restrictions: is_switched(vs, "proverif_no_restrictions"),
        replication_bound: given_u32(vs, "replication_bound"),
        no_compress: is_switched(vs, "no_compress"),
        parse_only: is_switched(vs, "parse_only"),
        precompute_only: is_switched(vs, "precompute_only"),
        processors: given_pool(vs, "processors"),
        maude_processes: given_pool(vs, "maude_processes"),
        output_file: given_text(vs, "output_file"),
        output_dir: given_text(vs, "output_dir"),
        output_module: given_text(vs, "output_module"),
        trace_json: given_text(vs, "trace_json"),
        trace_dot: given_text(vs, "trace_dot"),
        state_audit: audit,
        maude_path: given_text(vs, "maude_path"),
        dot_path: given_text(vs, "dot_path"),
        json_path: given_text(vs, "json_path"),
        port: None,
        interface: None,
        image_format: None,
        debug: false,
        no_logging: false,
        data_dir: None,
    }
}

#[verifier::spinoff_prover]
fn given_batch_flag(vs: &Vec<Values>) -> (r: Option<String>)
    ensures
        r.deep_view() == batch_flag(vs.deep_view()),
{
    if is_switched(vs, "no_compress") {
        Some("--no-compress".to_string())
    } else if is_switched(vs, "parse_only") {
        Some("--parse-only".to_string())
    } else if is_switched(vs, "precompute_only") {
        Some("--precompute-only".to_string())
    } else if given_text(vs, "output_file").is_some() {
        Some("-o/--output".to_string())
    } else if given_text(vs, "output_dir").is_some() {
        Some("-O/--Output".to_string())
    } else if given_text(vs, "output_module").is_some() {
        Some("-m/--output-module".to_string())
    } else if given_text(vs, "trace_json").is_some() {
        Some("--output-json".to_string())
    } else if given_text(vs, "trace_dot").is_some() {
        Some("--output-dot".to_string())
    } else if given_text(vs, "state_audit").is_some() {
        Some("--state-audit".to_string())
    } else {
        None
    }
}

#[verifier::spinoff_prover]
fn add_web(a: Args, vs: &Vec<Values>) -> (r: Args)
    ensures
        r.deep_view() == with_web(a.deep_view(), vs.deep_view()),
{
    proof {
        reveal(with_web);
    }
    Args {
        subcommand: Subcommand::Interactive,
        in_files: given_raws(vs, "workdir"),
        port: given_u16(vs, "port"),
        interface: given_text(vs, "interface"),
        image_format: given_image(vs, "image_format"),
        debug: is_switched(vs, "debug"),
        no_logging: is_switched(vs, "no_logging"),
        data_dir: given_text(vs, "data_dir"),
        ..a
    }
}

fn add_variants(a: Args, vs: &Vec<Values>) -> (r: Args)
    ensures
        r.deep_view() == with_variants(a.deep_view(), vs.deep_view()),
{
    proof {
        reveal(with_variants);
    }
    Args { subcommand: Subcommand::Variants, output_dir: given_text(vs, "output_dir"), ..a }
}

fn add_files(a: Args, subcommand: Subcommand, in_files: Vec<String>) -> (r: Args)
    ensures
        r.deep_view() == with_files(a.deep_view(), subcommand, in_files.deep_view()),
{
    proof {
        reveal(with_files);
    }
    Args { subcommand, in_files, ..a }
}

#[verifier::spinoff_prover]
fn add_subcommand(a: Args, s: &SubFound) -> (r: Args)
    ensures
        r.deep_view() == with_subcommand(a.deep_view(), s.deep_view()),
{
    if same(&s.name, "interactive") {
        add_web(a, &s.values)
    } else if same(&s.name, "variants") {
        add_variants(a, &s.values)
    } else if same(&s.name, "test") {
        add_files(a, Subcommand::Test, given_raws(&s.values, "files"))
    } else {
        add_files(a, Subcommand::InputManifest, given_raws(&s.values, "file"))
    }
}

/// The options that a command line gives.
pub fn args_of(f: &Found) -> (r: Result<Args, ArgsError>)
    ensures
        found(r) == options_of(f.deep_view()),
{
    let a = load(&f.values);
    match &f.sub {
        None => Ok(add_files(a, Subcommand::Batch, given_raws(&f.values, "files"))),
        Some(s) => {
            if !same(&s.name, "input-manifest") {
                if let Some(flag) = given_batch_flag(&f.values) {
                    let mut text = "error: ".to_string();
                    text.push_str(&flag);
                    text.push_str(" is a batch-mode flag and cannot be used with a subcommand\n");
                    return Err(ArgsError { kind: ErrorKind::ArgumentConflict, text });
                }
            }
            Ok(add_subcommand(a, s))
        },
    }
}

/// Reads the arguments behind the program's name. Where the build comes from
/// shows in the text that `--version` asks for.
pub fn parse_args(raw: &[String], build: &Build) -> (r: Result<Args, ArgsError>)
    ensures
        found(r) == parsed_args(raw.deep_view(), build.deep_view()),
{
    let mut argv = one_item("tamarin-rs".to_string());
    let mut i: usize = 0;
    while i < raw.len()
        invariant
            i <= raw@.len(),
            argv.deep_view() == seq!["tamarin-rs"@] + raw.deep_view().take(i as int),
        decreases raw@.len() - i,
    {
        put(&mut argv, raw[i].clone());
        i = i + 1;
        assert(argv.deep_view() =~= seq!["tamarin-rs"@] + raw.deep_view().take(i as int));
    }
    assert(raw.deep_view().take(raw@.len() as int) =~= raw.deep_view());
    match read_command_line(&argv, build) {
        Ok(f) => args_of(&f),
        Err(e) => Err(ArgsError { kind: kind_of(&e.kind), text: e.text }),
    }
}

impl ArgsM {
    /// Workers of a run on a machine that can run `machine` of them at once.
    pub open spec fn workers(self, machine: usize) -> usize {
        match self.processors {
            Some(n) => n,
            None => machine,
        }
    }

    /// Maude processes of such a run.
    pub open spec fn maudes(self, machine: usize) -> usize {
        let w = self.workers(machine);
        if w <= 1 {
            1
        } else {
            match self.maude_processes {
                Some(n) => if n < 1 {
                    1
                } else {
                    n
                },
                None => w,
            }
        }
    }
}

impl Args {
    /// Workers of a run on a machine that can run `machine` of them at once.
    pub fn effective_processors(&self, machine: usize) -> (n: usize)
        ensures
            n == self.deep_view().workers(machine),
    {
        match self.processors {
            Some(n) => n,
            None => machine,
        }
    }

    /// Maude processes of such a run: at least one, and one alone where there
    /// is one worker.
    pub fn effective_maude_processes(&self, machine: usize) -> (n: usize)
        ensures
            n == self.deep_view().maudes(machine),
            n >= 1,
    {
        let w = self.effective_processors(machine);
        if w <= 1 {
            return 1;
        }
        match self.maude_processes {
            Some(n) => if n < 1 {
                1
            } else {
                n
            },
            None => w,
        }
    }
}

/// Whether the pattern matches: by prefix where it ends in a star, and else
/// only the name itself.
pub open spec fn pattern_matches(pat: Seq<char>, name: Seq<char>) -> bool {
    if pat.len() > 0 && pat.last() == '*' {
        pat.drop_last().is_prefix_of(name)
    } else {
        pat == name
    }
}

/// Whether the filter stands for all lemmas: it is empty, or holds one or two
/// empty patterns and nothing else.
pub open spec fn selects_all(filter: Seq<Seq<char>>) -> bool {
    filter.len() <= 2 && forall|i: int| 0 <= i < filter.len() ==> (#[trigger] filter[i]).len() == 0
}

/// Whether the filter selects the lemma.
pub open spec fn selects(filter: Seq<Seq<char>>, name: Seq<char>) -> bool {
    selects_all(filter) || exists|i: int|
        0 <= i < filter.len() && #[trigger] pattern_matches(filter[i], name)
}

fn matches_pattern(pattern: &str, lemma_name: &str) -> (r: bool)
    ensures
        r == pattern_matches(pattern@, lemma_name@),
{
    let p = chars_of(pattern);
    let n = chars_of(lemma_name);
    if p.len() == 0 || p[p.len() - 1] != '*' {
        return same(pattern, lemma_name);
    }
    let k = p.len() - 1;
    if n.len() < k {
        return false;
    }
    let mut i: usize = 0;
    while i < k
        invariant
            i <= k <= n@.len(),
            k == p@.len() - 1,
            p@ == pattern@,
            n@ == lemma_name@,
            p@.last() == '*',
            forall|j: int| 0 <= j < i ==> p@[j] == n@[j],
        decreases k - i,
    {
        if p[i] != n[i] {
            assert(pattern@.drop_last()[i as int] == p@[i as int]);
            return false;
        }
        i = i + 1;
    }
    assert(pattern@.drop_last() =~= lemma_name@.take(k as int));
    true
}

/// Whether the filter selects the lemma.
pub fn lemma_matches(filter: &[String], lemma_name: &str) -> (r: bool)
    ensures
        r == selects(filter.deep_view(), lemma_name@),
{
    let ghost f = filter.deep_view();
    let n = filter.len();
    if n == 0 {
        return true;
    }
    assert(f[0] == filter@[0]@);
    if n == 1 && filter[0].as_str().is_empty() {
        return true;
    }
    if n == 2 {
        assert(f[1] == filter@[1]@);
        if filter[0].as_str().is_empty() && filter[1].as_str().is_empty() {
            return true;
        }
    }
    assert(!selects_all(f));
    let mut i: usize = 0;
    while i < n
        invariant
            i <= n == filter@.len(),
            f == filter.deep_view(),
            !selects_all(f),
            forall|j: int| 0 <= j < i ==> !#[trigger] pattern_matches(f[j], lemma_name@),
        decreases n - i,
    {
        assert(f[i as int] == filter@[i as int]@);
        if matches_pattern(&filter[i], lemma_name) {
            return true;
        }
        i = i + 1;
    }
    false
}

/// Three or more empty patterns do not stand for all lemmas: they select the
/// lemma without a name and no other.
pub proof fn law_three_empty_patterns(filter: Seq<Seq<char>>, name: Seq<char>)
    requires
        filter.len() >= 3,
        forall|i: int| 0 <= i < filter.len() ==> (#[trigger] filter[i]).len() == 0,
    ensures
        selects(filter, name) == (name.len() == 0),
{
    if name.len() == 0 {
        assert(filter[0] =~= name);
        assert(pattern_matches(filter[0], name));
    }
    if selects(filter, name) {
        let i = choose|i: int|
            0 <= i < filter.len() && #[trigger] pattern_matches(filter[i], name);
        assert(filter[i] == name);
    }
}

/// The order of the patterns does not count.
pub proof fn law_order_of_patterns(f: Seq<Seq<char>>, g: Seq<Seq<char>>, name: Seq<char>)
    requires
        f.to_multiset() == g.to_multiset(),
    ensures
        selects(f, name) == selects(g, name),
{
    if selects(f, name) {
        lemma_patterns_reordered(f, g, name);
    }
    if selects(g, name) {
        lemma_patterns_reordered(g, f, name);
    }
}

proof fn lemma_patterns_reordered(f: Seq<Seq<char>>, g: Seq<Seq<char>>, name: Seq<char>)
    requires
        f.to_multiset() == g.to_multiset(),
        selects(f, name),
    ensures
        selects(g, name),
{
    broadcast use vstd::seq_lib::group_to_multiset_ensures;

    assert(f.len() == f.to_multiset().len());
    assert(g.len() == g.to_multiset().len());
    if selects_all(f) {
        assert forall|i: int| 0 <= i < g.len() implies (#[trigger] g[i]).len() == 0 by {
            assert(g.contains(g[i]));
            assert(f.to_multiset().count(g[i]) > 0);
            assert(f.contains(g[i]));
        }
    } else {
        let i = choose|i: int| 0 <= i < f.len() && #[trigger] pattern_matches(f[i], name);
        assert(f.contains(f[i]));
        assert(g.to_multiset().count(f[i]) > 0);
        assert(g.contains(f[i]));
        let j = choose|j: int| 0 <= j < g.len() && g[j] == f[i];
        assert(pattern_matches(g[j], name));
    }
}

/// To add a pattern to a filter that does not stand for all lemmas selects no
/// fewer of them, and those that the pattern matches.
pub proof fn law_more_patterns_select_more(
    filter: Seq<Seq<char>>,
    pattern: Seq<char>,
    name: Seq<char>,
)
    requires
        !selects_all(filter),
    ensures
        selects(filter.push(pattern), name) == (selects(filter, name) || pattern_matches(
            pattern,
            name,
        )),
{
    let more = filter.push(pattern);
    if filter.len() <= 2 {
        let k = choose|k: int| 0 <= k < filter.len() && (#[trigger] filter[k]).len() != 0;
        assert(more[k].len() != 0);
    }
    assert(!selects_all(more));
    if selects(filter, name) {
        let i = choose|i: int|
            0 <= i < filter.len() && #[trigger] pattern_matches(filter[i], name);
        assert(pattern_matches(more[i], name));
    }
    if pattern_matches(pattern, name) {
        assert(pattern_matches(more[filter.len() as int], name));
    }
    if selects(more, name) {
        let i = choose|i: int| 0 <= i < more.len() && #[trigger] pattern_matches(more[i], name);
        if i < filter.len() {
            assert(pattern_matches(filter[i], name));
        }
    }
}

/// No flag of the batch mode is dropped: in front of a subcommand other than
/// `input-manifest` it is an error, and without a subcommand each of them is
/// among the options.
pub proof fn law_batch_flags_are_kept(f: FoundM)
    ensures
        f.sub matches Some(s) ==> s.name != "input-manifest"@ ==> (options_of(f) is Ok
            <==> batch_flag(f.values) is None),
        f.sub is None ==> options_of(f) is Ok && ({
            let a = options_of(f)->Ok_0;
            &&& a.no_compress == switched(f.values, "no_compress"@)
            &&& a.parse_only == switched(f.values, "parse_only"@)
            &&& a.precompute_only == switched(f.values, "precompute_only"@)
            &&& a.output_file == text_of(f.values, "output_file"@)
            &&& a.output_dir == text_of(f.values, "output_dir"@)
            &&& a.output_module == text_of(f.values, "output_module"@)
            &&& a.trace_json == text_of(f.values, "trace_json"@)
            &&& a.trace_dot == text_of(f.values, "trace_dot"@)
            &&& a.state_audit == text_of(f.values, "state_audit"@)
        }),
{
    reveal(loaded);
    reveal(with_files);
}

/// An audit proves: wherever a report of one is asked for, lemmas are to be proved.
pub proof fn law_an_audit_proves(raw: Seq<Seq<char>>, build: BuildM)
    ensures
        parsed_args(raw, build) matches Ok(a) ==> a.state_audit is Some ==> a.prove_mode,
{
    reveal(loaded);
    reveal(with_files);
    reveal(with_web);
    reveal(with_variants);
}

/// A run with one worker has one process of the rewriting tool, whatever was asked for.
pub proof fn law_sequential_runs_have_one_process(a: ArgsM, machine: usize)
    requires
        a.workers(machine) <= 1,
    ensures
        a.maudes(machine) == 1,
{
}

} // verus!
