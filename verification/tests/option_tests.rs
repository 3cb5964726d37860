use tamarin_rs::cli::{lemma_matches, parse_args, Args, ErrorKind, Subcommand};
use tamarin_rs::command::{parse_number, positive_usize, Build};
use tamarin_rs::json::Json;
use tamarin_rs::proof_diagnostics::{
    document, report, tally, FileResult, LemmaDiagnostics, OpenProofKind, OpenProofState,
    TheoryDiagnostics,
};

fn build() -> Build {
    Build {
        revision: "abc123".to_string(),
        branch: "main".to_string(),
        timestamp: "2026-01-02 03:04:05 UTC".to_string(),
    }
}

fn words(v: &[&str]) -> Vec<String> {
    v.iter().map(|s| s.to_string()).collect()
}

fn options(v: &[&str]) -> Args {
    parse_args(&words(v), &build()).expect("accepted")
}

#[test]
fn three_empty_patterns_select_only_the_empty_name() {
    assert!(lemma_matches(&words(&["", ""]), "a"));
    assert!(!lemma_matches(&words(&["", "", ""]), "a"));
    assert!(lemma_matches(&words(&["", "", ""]), ""));
}

#[test]
fn the_order_of_patterns_does_not_count() {
    for name in ["ab", "b", "c", ""] {
        assert_eq!(
            lemma_matches(&words(&["a*", "b", ""]), name),
            lemma_matches(&words(&["", "b", "a*"]), name)
        );
    }
}

#[test]
fn more_patterns_select_more() {
    assert!(!lemma_matches(&words(&["a"]), "b1"));
    assert!(lemma_matches(&words(&["a", "b*"]), "b1"));
    assert!(lemma_matches(&words(&["a", "b*"]), "a"));
    assert!(lemma_matches(&words(&["*"]), "anything"));
}

#[test]
fn batch_flags_are_kept_or_refused() {
    let a = options(&["--parse-only", "-o=out.spthy", "x.spthy"]);
    assert!(a.parse_only);
    assert_eq!(a.output_file, Some("out.spthy".to_string()));
    assert_eq!(a.in_files, words(&["x.spthy"]));
    let e = parse_args(&words(&["--parse-only", "interactive"]), &build()).expect_err("dropped");
    assert_eq!(e.kind(), ErrorKind::ArgumentConflict);
    assert_eq!(
        e.render(),
        "error: --parse-only is a batch-mode flag and cannot be used with a subcommand\n"
    );
    assert_eq!(e.exit_code(), 2);
}

#[test]
fn an_audit_proves_lemmas() {
    let a = options(&["--state-audit", "x.spthy"]);
    assert!(a.prove_mode);
    assert_eq!(a.state_audit, Some("state-audit.json".to_string()));
    assert!(!options(&["x.spthy"]).prove_mode);
}

#[test]
fn one_worker_has_one_process() {
    let a = options(&["--processors=1", "--maude-processes=8", "x.spthy"]);
    assert_eq!(a.effective_processors(4), 1);
    assert_eq!(a.effective_maude_processes(4), 1);
    let a = options(&["--processors=2", "--maude-processes=8", "x.spthy"]);
    assert_eq!(a.effective_maude_processes(4), 8);
    assert_eq!(options(&["x.spthy"]).effective_processors(6), 6);
}

#[test]
fn the_names_of_lemmas_stand_last_first() {
    let a = options(&["--prove=a", "--lemma=c", "--prove=b", "--lemma=d", "x.spthy"]);
    assert_eq!(a.lemma_names, words(&["b", "a", "d", "c"]));
}

#[test]
fn subcommands_take_their_own_options() {
    let a = options(&["interactive", "-p=4000", "dir"]);
    assert_eq!(a.subcommand, Subcommand::Interactive);
    assert_eq!(a.port, Some(4000));
    assert_eq!(a.in_files, words(&["dir"]));
    assert_eq!(options(&["test"]).subcommand, Subcommand::Test);
    let a = options(&["input-manifest", "m.spthy"]);
    assert_eq!(a.subcommand, Subcommand::InputManifest);
    assert_eq!(a.in_files, words(&["m.spthy"]));
}

#[test]
fn each_refusal_has_its_kind() {
    for (argv, kind) in [
        (vec!["--stop-on-trace=never", "x"], ErrorKind::InvalidValue),
        (vec!["--frob"], ErrorKind::UnknownArgument),
        (vec!["--processors=0", "x"], ErrorKind::ValueValidation),
        (vec!["input-manifest"], ErrorKind::MissingRequiredArgument),
        (vec!["--help"], ErrorKind::DisplayHelp),
        (vec!["--version"], ErrorKind::DisplayVersion),
    ] {
        let e = parse_args(&words(&argv), &build()).expect_err("refused");
        assert_eq!(e.kind(), kind, "{argv:?}");
        assert_eq!(
            e.exit_code(),
            if kind == ErrorKind::DisplayHelp || kind == ErrorKind::DisplayVersion {
                0
            } else {
                2
            }
        );
    }
    let v = parse_args(&words(&["--version"]), &build()).expect_err("version");
    assert!(v.render().contains("0.1.0"), "{}", v.render());
}

#[test]
fn numbers_are_bounded() {
    assert_eq!(parse_number("42", 100), Some(42));
    assert_eq!(parse_number("+42", 100), Some(42));
    assert_eq!(parse_number("0042", 42), Some(42));
    assert_eq!(parse_number("43", 42), None);
    assert_eq!(parse_number("18446744073709551616", u64::MAX), None);
    assert_eq!(parse_number("18446744073709551615", u64::MAX), Some(u64::MAX));
    assert_eq!(parse_number("", 1), None);
    assert_eq!(parse_number("4x", 100), None);
}

#[test]
fn sizes_of_pools_are_positive() {
    assert_eq!(positive_usize("3"), Ok(3));
    assert_eq!(positive_usize("0"), Err("must be >= 1".to_string()));
    assert_eq!(
        positive_usize("a\"b"),
        Err("expected a positive integer, got \"a\\\"b\"".to_string())
    );
    assert!(positive_usize("-0").is_err());
}

#[test]
fn a_report_is_written_as_named_fields() {
    let results = vec![FileResult {
        in_file: "m.spthy".to_string(),
        elapsed_ms: 1500,
        wf_count: 2,
    }];
    let files: Vec<TheoryDiagnostics> = vec![];
    let t = tally(&files);
    match document(&report(&results, &files, &t)) {
        Json::Object(fields) => {
            let keys: Vec<&str> = fields.iter().map(|f| f.key.as_str()).collect();
            assert_eq!(keys, vec!["schema_version", "mode", "summary", "theories"]);
            assert_eq!(fields[0].value, Json::Number(1));
            match &fields[3].value {
                Json::List(theories) => match &theories[0] {
                    Json::Object(fs) => {
                        assert_eq!(fs[1].key, "processing_time_seconds");
                        assert_eq!(fs[1].value, Json::Thousandths(1500));
                        assert_eq!(fs[2].value, Json::Number(2));
                        assert_eq!(fs[3].value, Json::List(vec![]));
                    }
                    _ => panic!("no object"),
                },
                _ => panic!("no list"),
            }
        }
        _ => panic!("no object"),
    }
}

#[test]
fn tallies_add_up() {
    let open = |kinds: &[OpenProofKind]| -> TheoryDiagnostics {
        vec![LemmaDiagnostics {
            lemma: "l".to_string(),
            states: kinds
                .iter()
                .map(|k| OpenProofState {
                    path: vec![],
                    kind: *k,
                    reason: None,
                    requested_method: None,
                    formulas: vec![],
                    open_goals: vec![],
                    applicable_methods: vec![],
                    constraint_system: String::new(),
                })
                .collect(),
        }]
    };
    let kinds = [OpenProofKind::Sorry, OpenProofKind::InvalidStep, OpenProofKind::Sorry];
    let a = tally(&[open(&kinds)]);
    let b = tally(&[open(&[OpenProofKind::UnhandledCase])]);
    let c = tally(&[open(&kinds), open(&[OpenProofKind::UnhandledCase])]);
    assert_eq!(c.open_proof_states, a.open_proof_states + b.open_proof_states);
    assert_eq!((c.sorries, c.invalid_steps, c.unhandled_cases), (2, 1, 1));
    assert_eq!(tally(&[]).open_proof_states, 0);
}

#[test]
fn the_help_shows_the_texts_of_the_flags() {
    let e = parse_args(&words(&["--help"]), &build()).expect_err("help");
    let t = e.render();
    assert!(t.contains("Rayon worker-pool size (default: all cores; 1 = sequential output)"), "{t}");
    assert!(t.contains("Suppress Rust-side diagnostics that have no oracle counterpart"), "{t}");
}

#[test]
fn the_version_says_where_the_build_comes_from() {
    let short = parse_args(&words(&["-V"]), &build()).expect_err("version");
    assert_eq!(short.render(), "tamarin-rs 0.1.0\n");
    let long = parse_args(&words(&["--version"]), &build()).expect_err("version");
    assert_eq!(
        long.render(),
        "tamarin-rs 0.1.0\ngit revision abc123 (branch main)\n\
         compiled at 2026-01-02 03:04:05 UTC\n"
    );
}

#[test]
fn the_help_lists_the_subcommands_for_users() {
    for flag in ["-h", "--help"] {
        let e = parse_args(&words(&[flag]), &build()).expect_err("help");
        let t = e.render();
        assert!(!t.contains("input-manifest"), "{t}");
        assert!(
            t.starts_with(
                "Security protocol analysis and verification\n\n\
                 Usage: tamarin-rs [OPTIONS] [FILES]... [COMMAND]\n\nCommands:\n  \
                 interactive  Serve the interactive web UI\n"
            ),
            "{t}"
        );
        assert!(t.contains("\n\nArguments:\n  [FILES]..."), "{t}");
        assert!(t.contains("\n\nOptions:\n"), "{t}");
        assert!(t.contains("--prove[=<LEMMA>]"), "{t}");
    }
}
