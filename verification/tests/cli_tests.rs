use tamarin_rs::command::Build;
use tamarin_rs::cli::{
    lemma_matches, parse_args, Args, ArgsError, ErrorKind, ImageFormat, PartialEval, StopOnTrace,
    Subcommand,
};

fn build() -> Build {
    Build {
        revision: "abc123".to_string(),
        branch: "main".to_string(),
        timestamp: "2026-01-02 03:04:05 UTC".to_string(),
    }
}

fn parse(args: &[&str]) -> Args {
    parse_args(&args.iter().map(|s| s.to_string()).collect::<Vec<_>>(), &build()).expect("parse")
}

fn parse_err(args: &[&str]) -> ArgsError {
    parse_args(&args.iter().map(|s| s.to_string()).collect::<Vec<_>>(), &build()).expect_err("parse error")
}

#[test]
fn default_is_batch() {
    let a = parse(&["foo.spthy"]);
    assert_eq!(a.subcommand, Subcommand::Batch);
    assert_eq!(a.in_files, vec!["foo.spthy"]);
    assert!(!a.prove_mode);
}

#[test]
fn no_args_shows_help() {
    let e = parse_err(&[]);
    assert_eq!(
        e.kind(),
        ErrorKind::DisplayHelpOnMissingArgumentOrSubcommand
    );
}

#[test]
fn positional_files() {
    let a = parse(&["foo.spthy", "bar.spthy"]);
    assert_eq!(a.in_files, vec!["foo.spthy", "bar.spthy"]);
}

#[test]
fn interactive_subcommand_recognised() {
    let a = parse(&["interactive", "."]);
    assert_eq!(a.subcommand, Subcommand::Interactive);
    assert_eq!(a.in_files, vec!["."]);
}

#[test]
fn variants_subcommand_recognised() {
    let a = parse(&["variants"]);
    assert_eq!(a.subcommand, Subcommand::Variants);
    let a = parse(&["variants", "-O=out"]);
    assert_eq!(a.output_dir.as_deref(), Some("out"));
}

#[test]
fn test_subcommand_and_its_haskell_alias() {
    assert_eq!(parse(&["test"]).subcommand, Subcommand::Test);

    assert_eq!(parse(&["test-prover"]).subcommand, Subcommand::Test);
}

#[test]
fn loader_flags_are_global_across_subcommands() {
    let a = parse(&["-b=10", "interactive", "."]);
    assert_eq!(a.subcommand, Subcommand::Interactive);
    assert_eq!(a.bound, Some(10));
    let a = parse(&["interactive", "--heuristic=C", "--with-maude=/x/maude", "."]);
    assert_eq!(a.heuristic.as_deref(), Some("C"));
    assert_eq!(a.maude_path.as_deref(), Some("/x/maude"));
}

#[test]
fn batch_output_flags_are_not_valid_in_interactive_mode() {
    let e = parse_err(&["interactive", "-o=out.spthy", "."]);
    assert_eq!(e.kind(), ErrorKind::UnknownArgument);
}

#[test]
fn batch_output_flags_before_a_subcommand_conflict() {
    for (argv, named) in [
        (&["-o=x", "interactive", "."][..], "-o/--output"),
        (&["-O=x", "variants"][..], "-O/--Output"),
        (&["-m=msr", "test"][..], "-m/--output-module"),
        (&["--parse-only", "test"][..], "--parse-only"),
        (&["--precompute-only", "variants"][..], "--precompute-only"),
        (&["--no-compress", "interactive", "."][..], "--no-compress"),
        (
            &["--output-json=t.json", "interactive", "."][..],
            "--output-json",
        ),
        (&["--output-dot=t.dot", "variants"][..], "--output-dot"),
    ] {
        let e = parse_err(argv);
        assert_eq!(
            e.kind(),
            ErrorKind::ArgumentConflict,
            "{argv:?}"
        );

        assert!(e.render().contains(named), "{argv:?}: {e:?}");
    }

    assert_eq!(
        parse(&["variants", "-O=out"]).output_dir.as_deref(),
        Some("out")
    );
}

#[test]
fn repeated_scalar_flags_are_last_wins() {
    let a = parse(&["-b=5", "-b=7", "x.spthy"]);
    assert_eq!(a.bound, Some(7));
    let a = parse(&["--heuristic=s", "--heuristic=C", "x.spthy"]);
    assert_eq!(a.heuristic.as_deref(), Some("C"));
    let a = parse(&["--prove=a", "-m=spthy", "-m=msr", "--prove=b", "x.spthy"]);
    assert_eq!(a.output_module.as_deref(), Some("msr"));
    assert_eq!(a.lemma_names, vec!["b", "a"]);
}

#[test]
fn hs_flags_the_port_deliberately_rejects() {
    for argv in [
        &["--proverif-no-source-lemmas", "x.spthy"][..],
        &["--proverif-no-multiset", "x.spthy"][..],
        &["--proverif-no-precise", "x.spthy"][..],
        &["interactive", "--load-json=x", "."][..],
        &["interactive", "--browser", "."][..],
    ] {
        let e = parse_err(argv);
        assert_eq!(
            e.kind(),
            ErrorKind::UnknownArgument,
            "{argv:?}"
        );
    }
}

#[test]
fn prove_with_value() {
    let a = parse(&["--prove=secrecy", "x.spthy"]);
    assert!(a.prove_mode);
    assert_eq!(a.lemma_names, vec!["secrecy".to_string()]);
    assert_eq!(a.in_files, vec!["x.spthy".to_string()]);
}

#[test]
fn prove_bare_means_all() {
    let a = parse(&["--prove", "x.spthy"]);
    assert!(a.prove_mode);
    assert_eq!(a.lemma_names, vec!["".to_string()]);
    assert_eq!(a.in_files, vec!["x.spthy".to_string()]);
}

#[test]
fn prove_repeated() {
    let a = parse(&["--prove=foo", "--prove=bar*", "x.spthy"]);
    assert_eq!(a.lemma_names, vec!["bar*", "foo"]);
}

#[test]
fn lemma_flag_appends_after_prove_names() {
    let a = parse(&["--prove=a", "--lemma=b", "x.spthy"]);
    assert!(a.prove_mode);
    assert_eq!(a.lemma_names, vec!["a", "b"]);
    let a = parse(&[
        "--prove=p1",
        "--lemma=l1",
        "--prove=p2",
        "--lemma=l2",
        "x.spthy",
    ]);
    assert_eq!(a.lemma_names, vec!["p2", "p1", "l2", "l1"]);
    let a = parse(&["--lemma=b", "x.spthy"]);
    assert!(!a.prove_mode);
    assert_eq!(a.lemma_names, vec!["b"]);
}

#[test]
fn lemma_never_consumes_the_next_token() {
    let a = parse(&["--lemma", "reach", "x.spthy"]);
    assert_eq!(a.lemma_names, vec![""]);
    assert_eq!(a.in_files, vec!["reach", "x.spthy"]);
}

#[test]
fn bound_inline_short_and_long() {
    assert_eq!(parse(&["-b=12", "x.spthy"]).bound, Some(12));
    assert_eq!(parse(&["--bound=12", "x.spthy"]).bound, Some(12));
}

#[test]
fn bound_space_separated_is_positional() {
    let a = parse(&["-b", "10", "x.spthy"]);
    assert_eq!(a.bound, Some(5));
    assert_eq!(a.in_files, vec!["10", "x.spthy"]);
}

#[test]
fn bound_bare_vs_absent() {
    assert_eq!(parse(&["-b", "x.spthy"]).bound, Some(5));
    assert_eq!(parse(&["x.spthy"]).bound, None);
}

#[test]
fn heuristic_bare_vs_absent() {
    assert_eq!(
        parse(&["--heuristic", "x.spthy"]).heuristic.as_deref(),
        Some("s")
    );
    assert_eq!(parse(&["x.spthy"]).heuristic, None);
    assert_eq!(
        parse(&["--heuristic=ssC", "x.spthy"]).heuristic.as_deref(),
        Some("ssC")
    );
}

#[test]
fn saturation_and_open_chains_inline_short_and_long() {
    assert_eq!(parse(&["-s=3", "x.spthy"]).saturation, Some(3));
    assert_eq!(parse(&["--saturation=3", "x.spthy"]).saturation, Some(3));
    assert_eq!(parse(&["-c=7", "x.spthy"]).open_chains, Some(7));
    assert_eq!(parse(&["--open-chains=7", "x.spthy"]).open_chains, Some(7));

    assert_eq!(parse(&["-c", "x.spthy"]).open_chains, Some(10));
    assert_eq!(parse(&["-s", "x.spthy"]).saturation, Some(5));
}

#[test]
fn derivcheck_timeout_zero_disables_and_bare_is_five() {
    assert_eq!(parse(&["-d=0", "x.spthy"]).derivcheck_timeout, Some(0));
    assert_eq!(parse(&["-d", "x.spthy"]).derivcheck_timeout, Some(5));
    assert_eq!(
        parse(&["--derivcheck-timeout=30", "x.spthy"]).derivcheck_timeout,
        Some(30)
    );
}

#[test]
fn oversized_numeric_values_are_rejected_loudly() {
    for argv in [
        ["-d=4294967296", "x.spthy"],
        ["-c=9223372036854775808", "x.spthy"],
        ["-s=9223372036854775808", "x.spthy"],
        ["-c=-1", "x.spthy"],
        ["-b=4294967296", "x.spthy"],
        ["-b=-1", "x.spthy"],

        ["-b=not-a-number", "x.spthy"],
    ] {
        let e = parse_err(&argv);
        assert_eq!(
            e.kind(),
            ErrorKind::ValueValidation,
            "{argv:?}: {e:?}"
        );
    }

    assert_eq!(
        parse(&["-d=4294967295", "x.spthy"]).derivcheck_timeout,
        Some(u32::MAX)
    );
    assert_eq!(parse(&["-b=4294967295", "x.spthy"]).bound, Some(u32::MAX));
    assert_eq!(
        parse(&["-c=9223372036854775807", "x.spthy"]).open_chains,
        Some(i64::MAX as u64)
    );
}

#[test]
fn output_file_and_dir() {
    assert_eq!(
        parse(&["-o=out.spthy", "x.spthy"]).output_file.as_deref(),
        Some("out.spthy")
    );
    assert_eq!(parse(&["-o", "x.spthy"]).output_file.as_deref(), Some(""));
    assert_eq!(
        parse(&["--output=out.spthy", "x.spthy"])
            .output_file
            .as_deref(),
        Some("out.spthy")
    );
    assert_eq!(
        parse(&["-O=dir", "x.spthy"]).output_dir.as_deref(),
        Some("dir")
    );
    assert_eq!(parse(&["-O", "x.spthy"]).output_dir.as_deref(), Some(""));
    assert_eq!(
        parse(&["--Output=dir", "x.spthy"]).output_dir.as_deref(),
        Some("dir")
    );
    assert_eq!(parse(&["x.spthy"]).output_file, None);
}

#[test]
fn output_dir_alias_is_unknown_flag() {
    let e = parse_err(&["--output-dir=x", "t.spthy"]);
    assert_eq!(e.kind(), ErrorKind::UnknownArgument);
}

#[test]
fn with_tool_paths_bare_defaults() {
    assert_eq!(
        parse(&["--with-maude=/opt/maude", "x.spthy"])
            .maude_path
            .as_deref(),
        Some("/opt/maude")
    );
    assert_eq!(
        parse(&["--with-maude", "x.spthy"]).maude_path.as_deref(),
        Some("maude")
    );
    assert_eq!(parse(&["x.spthy"]).maude_path, None);
    assert_eq!(
        parse(&["--with-dot", "x.spthy"]).dot_path.as_deref(),
        Some("dot")
    );
    assert_eq!(
        parse(&["--with-json", "x.spthy"]).json_path.as_deref(),
        Some("json")
    );
}

#[test]
fn oracle_flags_parsed() {
    let a = parse(&["--oraclename=my.py", "--oracle-only", "x.spthy"]);
    assert_eq!(a.oracle_name.as_deref(), Some("my.py"));
    assert!(a.oracle_only);

    assert_eq!(
        parse(&["--oraclename", "x.spthy"]).oracle_name.as_deref(),
        Some("")
    );
}

#[test]
fn replication_bound_bare_is_three() {
    assert_eq!(
        parse(&["--replication-bound=7", "x.spthy"]).replication_bound,
        Some(7)
    );
    assert_eq!(
        parse(&["--replication-bound", "x.spthy"]).replication_bound,
        Some(3)
    );
}

#[test]
fn stop_on_trace_known() {
    assert_eq!(
        parse(&["--stop-on-trace=dfs", "x.spthy"]).stop_on_trace,
        Some(StopOnTrace::Dfs)
    );
    assert_eq!(
        parse(&["--stop-on-trace=BFS", "x.spthy"]).stop_on_trace,
        Some(StopOnTrace::Bfs)
    );
    assert_eq!(
        parse(&["--stop-on-trace=seqdfs", "x.spthy"]).stop_on_trace,
        Some(StopOnTrace::SeqDfs)
    );
    assert_eq!(
        parse(&["--stop-on-trace=sorry", "x.spthy"]).stop_on_trace,
        Some(StopOnTrace::Sorry)
    );
    assert_eq!(
        parse(&["--stop-on-trace=none", "x.spthy"]).stop_on_trace,
        Some(StopOnTrace::Never)
    );

    assert_eq!(
        parse(&["--stop-on-trace", "x.spthy"]).stop_on_trace,
        Some(StopOnTrace::Dfs)
    );
}

#[test]
fn stop_on_trace_unknown_is_err() {
    let e = parse_err(&["--stop-on-trace=zigzag", "x.spthy"]);
    assert_eq!(e.kind(), ErrorKind::InvalidValue);
}

#[test]
fn partial_eval_known_values_and_bare_default() {
    assert_eq!(
        parse(&["--partial-evaluation=SUMMARY", "x.spthy"]).partial_evaluation,
        Some(PartialEval::Summary)
    );
    assert_eq!(
        parse(&["--partial-evaluation=Verbose", "x.spthy"]).partial_evaluation,
        Some(PartialEval::Verbose)
    );
    assert_eq!(
        parse(&["--partial-evaluation", "x.spthy"]).partial_evaluation,
        Some(PartialEval::Summary)
    );
}

#[test]
fn partial_eval_unknown_value_is_a_parse_error() {
    let e = parse_err(&["--partial-evaluation=banana", "x.spthy"]);
    assert_eq!(e.kind(), ErrorKind::InvalidValue);
}

#[test]
fn output_module_parsed_and_validated() {
    assert_eq!(
        parse(&["-m=msr", "x.spthy"]).output_module.as_deref(),
        Some("msr")
    );
    assert_eq!(
        parse(&["--output-module=spthytyped", "x.spthy"])
            .output_module
            .as_deref(),
        Some("spthytyped")
    );

    assert_eq!(
        parse(&["-m", "x.spthy"]).output_module.as_deref(),
        Some("spthy")
    );
    assert_eq!(parse(&["x.spthy"]).output_module, None);

    let e = parse_err(&["-m=fortran", "x.spthy"]);
    assert_eq!(e.kind(), ErrorKind::InvalidValue);
}

#[test]
fn defines_take_values_only_via_equals() {
    let a = parse(&["-D=A", "--defines=B", "x.spthy"]);
    assert_eq!(a.defines, vec!["A", "B"]);
    let a = parse(&["-D", "A", "x.spthy"]);
    assert_eq!(a.defines, vec![""]);
    assert_eq!(a.in_files, vec!["A", "x.spthy"]);
    assert_eq!(
        parse_err(&["-DB", "x.spthy"]).kind(),
        ErrorKind::UnknownArgument
    );
}

#[test]
fn trace_output_flags() {
    let a = parse(&["--output-json=t.json", "--output-dot=t.dot", "x.spthy"]);
    assert_eq!(a.trace_json.as_deref(), Some("t.json"));
    assert_eq!(a.trace_dot.as_deref(), Some("t.dot"));

    let a = parse(&["--oj", "t.json", "--od", "t.dot", "x.spthy"]);
    assert_eq!(a.trace_json.as_deref(), Some("t.json"));
    assert_eq!(a.trace_dot.as_deref(), Some("t.dot"));
}

#[test]
fn state_audit_flag() {
    let a = parse(&["--state-audit=report.json", "x.spthy"]);
    assert_eq!(a.state_audit.as_deref(), Some("report.json"));

    let a = parse(&["--state-audit", "x.spthy"]);
    assert_eq!(a.state_audit.as_deref(), Some("state-audit.json"));

    assert_eq!(a.in_files, vec!["x.spthy"]);

    let a = parse(&["--state-audit=a.json", "--state-audit=b.json", "x.spthy"]);
    assert_eq!(a.state_audit.as_deref(), Some("b.json"));
}

#[test]
fn state_audit_implies_prove_without_touching_the_lemma_filter() {
    let a = parse(&["--state-audit=r.json", "x.spthy"]);
    assert!(a.prove_mode);
    assert!(a.lemma_names.is_empty());

    let a = parse(&["--state-audit=r.json", "--lemma=wanted", "x.spthy"]);
    assert!(a.prove_mode);
    assert_eq!(a.lemma_names, vec!["wanted"]);
}

#[test]
fn state_audit_conflicts_with_a_subcommand() {
    assert_eq!(
        parse_err(&["--state-audit=r.json", "interactive"]).kind(),
        ErrorKind::ArgumentConflict
    );
}

#[test]
fn lemma_timeout_flag() {
    let a = parse(&["--lemma-timeout=30", "x.spthy"]);
    assert_eq!(a.lemma_timeout, Some(30));

    let a = parse(&["x.spthy"]);
    assert_eq!(a.lemma_timeout, None);

    let a = parse(&["--lemma-timeout=5", "--lemma-timeout=9", "x.spthy"]);
    assert_eq!(a.lemma_timeout, Some(9));
}

#[test]
fn lemma_timeout_zero_is_a_zero_budget_not_an_absent_one() {
    let a = parse(&["--lemma-timeout=0", "x.spthy"]);
    assert_eq!(a.lemma_timeout, Some(0));
}

#[test]
fn lemma_timeout_is_equals_only() {
    let a = parse(&["--lemma-timeout=7", "x.spthy"]);
    assert_eq!(a.lemma_timeout, Some(7));
    assert_eq!(a.in_files, vec!["x.spthy"]);
}

#[test]
fn lemma_timeout_is_global() {
    let a = parse(&["interactive", "--lemma-timeout=12", "x.spthy"]);
    assert_eq!(a.lemma_timeout, Some(12));
}

#[test]
fn without_flags_are_repeatable() {
    let a = parse(&["--without-rule=A", "--without-rule=B", "x.spthy"]);
    assert_eq!(a.without_rule, vec!["A", "B"]);

    let a = parse(&[
        "--without-restriction=R1",
        "--without-restriction=R2",
        "x.spthy",
    ]);
    assert_eq!(a.without_restriction, vec!["R1", "R2"]);

    let a = parse(&["x.spthy"]);
    assert!(a.without_rule.is_empty() && a.without_restriction.is_empty());
}

#[test]
fn without_rule_and_without_restriction_do_not_alias() {
    let a = parse(&["--without-rule=OnlyARule", "x.spthy"]);
    assert_eq!(a.without_rule, vec!["OnlyARule"]);
    assert!(a.without_restriction.is_empty());
}

#[test]
fn without_flags_are_equals_only() {
    let a = parse(&["--without-rule=R", "x.spthy"]);
    assert_eq!(a.without_rule, vec!["R"]);
    assert_eq!(a.in_files, vec!["x.spthy"]);
}

#[test]
fn without_flags_are_global() {
    let a = parse(&["interactive", "--without-rule=R", "x.spthy"]);
    assert_eq!(a.without_rule, vec!["R"]);
}

const BOOL_FLAGS: [(&str, fn(&Args) -> bool); 12] = [
    ("--diff", |a| a.diff),
    ("--quit-on-warning", |a| a.quit_on_warning),
    ("--no-ndc", |a| a.no_ndc),
    ("--auto-sources", |a| a.auto_sources),
    ("--oracle-only", |a| a.oracle_only),
    ("--quiet", |a| a.quiet),
    ("--verbose", |a| a.verbose),
    ("--proverif-no-reuse-lemmas", |a| a.proverif_no_reuse_lemmas),
    ("--proverif-no-restrictions", |a| a.proverif_no_restrictions),
    ("--no-compress", |a| a.no_compress),
    ("--parse-only", |a| a.parse_only),
    ("--precompute-only", |a| a.precompute_only),
];

#[test]
fn each_boolean_flag_sets_its_own_field_and_no_other() {
    for (set, _) in BOOL_FLAGS {
        let a = parse(&[set, "x.spthy"]);
        for (other, read) in BOOL_FLAGS {
            assert_eq!(read(&a), set == other, "argv `{set}`, field of `{other}`");
        }
    }

    let a = parse(&["x.spthy"]);
    for (name, read) in BOOL_FLAGS {
        assert!(!read(&a), "`{name}` set without the flag");
    }

    assert!(parse(&["-v", "x.spthy"]).verbose);
}

#[test]
fn port_inline_bare_and_absent() {
    assert_eq!(parse(&["interactive", "-p=8080", "."]).port, Some(8080));
    assert_eq!(parse(&["interactive", "--port=8080", "."]).port, Some(8080));

    assert_eq!(parse(&["interactive", "-p", "."]).port, Some(3001));
    assert_eq!(parse(&["interactive", "."]).port, None);
}

#[test]
fn port_out_of_range_is_err() {
    let e = parse_err(&["interactive", "-p=70000", "."]);
    assert_eq!(e.kind(), ErrorKind::ValueValidation);
}

#[test]
fn interface_and_web_flags() {
    let a = parse(&[
        "interactive",
        "-i=*4",
        "--image-format=PNG",
        "--debug",
        "--no-logging",
        "--data-dir",
        "/srv/data",
        ".",
    ]);
    assert_eq!(a.interface.as_deref(), Some("*4"));
    assert_eq!(a.image_format, Some(ImageFormat::Png));
    assert!(a.debug);
    assert!(a.no_logging);
    assert_eq!(a.data_dir.as_deref(), Some("/srv/data"));

    assert!(parse_args(&["interactive".into(), "-i".into(), "*4".into(), ".".into()], &build()).is_err());
}

#[test]
fn maude_processes_parsed() {
    let a = parse(&["--maude-processes", "3", "x.spthy"]);
    assert_eq!(a.maude_processes, Some(3));
}

#[test]
fn zero_pool_sizes_rejected() {
    assert_eq!(
        parse_err(&["--maude-processes=0", "x.spthy"]).kind(),
        ErrorKind::ValueValidation
    );
    assert_eq!(
        parse_err(&["--processors=0", "x.spthy"]).kind(),
        ErrorKind::ValueValidation
    );
}

#[test]
fn effective_maude_processes_single_processor_forces_one() {
    let a = parse(&["--processors=1", "--maude-processes=8", "x.spthy"]);

    assert_eq!(a.effective_maude_processes(4), 1);
}

#[test]
fn effective_maude_processes_default_is_one_to_one() {
    let a = parse(&["--processors=8", "x.spthy"]);

    assert_eq!(a.effective_maude_processes(4), 8);
}

#[test]
fn effective_maude_processes_explicit_override() {
    let a = parse(&["--processors=8", "--maude-processes=2", "x.spthy"]);
    assert_eq!(a.effective_maude_processes(4), 2);
}

#[test]
fn unknown_flags_are_err() {
    assert_eq!(
        parse_err(&["--prove-all", "x.spthy"]).kind(),
        ErrorKind::UnknownArgument
    );
    assert_eq!(
        parse_err(&["--frobnicate", "x.spthy"]).kind(),
        ErrorKind::UnknownArgument
    );
    assert_eq!(
        parse_err(&["-Z", "x.spthy"]).kind(),
        ErrorKind::UnknownArgument
    );
}

#[test]
fn ddash_routes_to_positional() {
    let a = parse(&["--", "--weird.spthy"]);
    assert_eq!(a.in_files, vec!["--weird.spthy"]);
}

#[test]
fn help_and_version_are_clap() {
    assert_eq!(
        parse_err(&["--help"]).kind(),
        ErrorKind::DisplayHelp
    );
    assert_eq!(
        parse_err(&["-h"]).kind(),
        ErrorKind::DisplayHelp
    );
    assert_eq!(
        parse_err(&["--version"]).kind(),
        ErrorKind::DisplayVersion
    );
    assert_eq!(
        parse_err(&["-V"]).kind(),
        ErrorKind::DisplayVersion
    );
}

#[test]
fn lemma_matches_exact() {
    let f = vec!["foo".to_string()];
    assert!(lemma_matches(&f, "foo"));
    assert!(!lemma_matches(&f, "bar"));
}

#[test]
fn lemma_matches_prefix_star() {
    let f = vec!["secrecy*".to_string()];
    assert!(lemma_matches(&f, "secrecy_alice"));
    assert!(lemma_matches(&f, "secrecy"));
    assert!(!lemma_matches(&f, "auth"));
}

#[test]
fn lemma_matches_empty_filter_matches_all() {
    let f: Vec<String> = vec![];
    assert!(lemma_matches(&f, "anything"));
    let f = vec![String::new()];
    assert!(lemma_matches(&f, "anything"));
}

#[test]
fn lemma_matches_any_in_filter() {
    let f = vec!["foo".to_string(), "bar*".to_string()];
    assert!(lemma_matches(&f, "foo"));
    assert!(lemma_matches(&f, "barbaric"));
    assert!(!lemma_matches(&f, "baz"));
}

#[test]
fn lemma_matches_two_empties_match_all() {
    let f = vec![String::new(), String::new()];
    assert!(lemma_matches(&f, "anything"));
}

#[test]
fn lemma_matches_three_empties_match_nothing() {
    let f = vec![String::new(), String::new(), String::new()];
    assert!(!lemma_matches(&f, "anything"));
    assert!(lemma_matches(&f, ""));
}
