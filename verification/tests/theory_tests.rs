use tamarin_rs::ast::{Term, Theory, TheoryItem};
use tamarin_rs::comments::remove_comments;
use tamarin_rs::error::{show_lit_string, GhcError, ParseError};
use tamarin_rs::parser::{
    self, parse_diff_theory_with_base, parse_formula_str, parse_intruder_rules,
    parse_theory_with_base, parse_theory_with_manifest, Outcome, Reading,
};
use tamarin_rs::paths::{join_path, parent_path, path_file_name, path_is_absolute};
use tamarin_rs::signature::{insert_name, insert_sym, pair_maude_sig, FunOptions, FunSym};
use tamarin_rs::state::SourceFile;

fn result(r: Reading<Theory>) -> Result<Theory, ParseError> {
    match r.outcome {
        Outcome::Done(t) => Ok(t),
        Outcome::Failed(e) => Err(e),
        Outcome::NeedsFile(path) => panic!("{path} is not at hand"),
    }
}

fn parse_theory(input: &str, flags: &[&str]) -> Result<Theory, ParseError> {
    result(parser::parse_theory(input, flags, &vec![]))
}

fn parse_diff_theory(input: &str, flags: &[&str]) -> Result<Theory, ParseError> {
    result(parser::parse_diff_theory(input, flags, &vec![]))
}

fn theory(body: &str) -> Result<Theory, ParseError> {
    parse_theory(&format!("theory T begin\n{body}\nend"), &[])
}

fn refusal(body: &str) -> String {
    match theory(body) {
        Ok(_) => panic!("{body} was read"),
        Err(e) => e.render(),
    }
}

fn file(path: &str, content: Result<&str, &str>) -> SourceFile {
    SourceFile {
        path: path.to_string(),
        canonical: path.to_string(),
        content: match content {
            Ok(t) => Ok(t.to_string()),
            Err(e) => Err(e.to_string()),
        },
    }
}

fn read_in(dir: &str, body: &str, files: &Vec<SourceFile>) -> Reading<Theory> {
    parse_theory_with_base(
        &format!("theory T begin\n{body}\nend"),
        &[],
        Some(dir.to_string()),
        files,
    )
}

fn rule_names(t: &Theory) -> Vec<String> {
    let mut v = Vec::new();
    for x in &t.items {
        if let TheoryItem::Rule(r) = x {
            v.push(r.name.clone());
        }
    }
    v
}

const CLAIM: &str = "\"All #i. A() @ i ==> F\"";

#[test]
fn lemmas_of_one_name_are_refused() {
    let e = refusal(&format!("lemma L: {CLAIM}\nlemma L: {CLAIM}"));
    assert!(e.contains("duplicate lemma: L"), "{e}");
    let t = theory(&format!("lemma L: {CLAIM}\nlemma M: {CLAIM}")).expect("two names");
    assert_eq!(t.items.len(), 2);
}

#[test]
fn restrictions_of_one_name_are_refused() {
    let e = refusal(&format!("restriction R: {CLAIM}\naxiom R: {CLAIM}"));
    assert!(e.contains("duplicate restriction: R"), "{e}");
}

#[test]
fn a_restriction_of_one_side_may_share_a_name() {
    let t = theory(&format!("restriction R: {CLAIM}\nrestriction R [left]: {CLAIM}"));
    assert_eq!(t.expect("one side").items.len(), 2);
}

#[test]
fn a_restriction_in_a_rule_takes_a_name() {
    let rule = "rule A: [ ] --[ _restrict(B(x)) ]-> [ ]";
    let e = refusal(&format!("restriction Restr_A_1: {CLAIM}\n{rule}"));
    assert!(e.contains("duplicate restriction: Restr_A_1"), "{e}");
    let e = refusal(&format!("{rule}\nrestriction Restr_A_1: {CLAIM}"));
    assert!(e.contains("duplicate restriction: Restr_A_1"), "{e}");
}

#[test]
fn rules_of_one_name_must_be_the_same() {
    let rule = "rule A: [ ] --> [ Out('a') ]";
    let t = theory(&format!("{rule}\n{rule}")).expect("the same rule");
    assert_eq!(rule_names(&t), vec!["A", "A"]);
    let e = refusal(&format!("{rule}\nrule A: [ ] --> [ Out('b') ]"));
    assert!(e.contains("duplicate rule: A"), "{e}");
    let t = theory("rule (modulo E) A: [ ] --> [ ]\nrule A: [ ] --> [ ]");
    assert_eq!(rule_names(&t.expect("the same up to the theory")), vec!["A", "A"]);
}

#[test]
fn rules_of_diff_theories_are_not_held_apart() {
    let src = "theory D begin rule A: [ ] --> [ Out('a') ] rule A: [ ] --> [ ] end";
    assert_eq!(rule_names(&parse_diff_theory(src, &[]).expect("read")).len(), 2);
}

#[test]
fn predicates_are_told_apart_by_name_and_arguments() {
    let t = theory("predicates: P(x) <=> x = x, P(x, y) <=> x = y");
    assert!(t.is_ok());
    let e = refusal("predicates: P(x) <=> x = x\npredicates: P(y) <=> y = y");
    assert!(e.contains("duplicate predicate: P( y )"), "{e}");
    let e = refusal("predicates: Smaller(x, y) <=> x = y");
    assert!(e.contains("duplicate predicate"), "{e}");
}

#[test]
fn what_follows_the_end_is_not_read() {
    let a = parse_theory("theory T begin end", &[]).expect("read");
    let b = parse_theory("theory T begin end #include \"x\" lemma (", &[]).expect("read");
    assert_eq!(a.name, b.name);
    assert_eq!(a.items.len(), b.items.len());
}

#[test]
fn a_dead_branch_leaves_no_trace() {
    let t = theory("#ifdef X\nrule A: [ ] --> [ ]\n#endif\nrule B: [ ] --> [ ]").expect("read");
    assert_eq!(rule_names(&t), vec!["B"]);
    let t = theory(
        "#ifdef X\nlemma (\n#ifdef Y\n#else\n#endif\n#else\nrule C: [ ] --> [ ]\n#endif",
    );
    assert_eq!(rule_names(&t.expect("read")), vec!["C"]);
    let e = refusal("#ifdef X\nrule A: [ ] --> [ ]");
    assert!(e.contains("unterminated #ifdef"), "{e}");
}

#[test]
fn a_defined_flag_holds() {
    let t = theory("#define X\n#ifdef X & not Y\nrule A: [ ] --> [ ]\n#else\nlemma (\n#endif");
    assert_eq!(rule_names(&t.expect("read")), vec!["A"]);
    let t = parse_theory(
        "theory T begin #ifdef (X | Y) rule A: [ ] --> [ ] #endif end",
        &["Y"],
    );
    assert_eq!(rule_names(&t.expect("read")), vec!["A"]);
}

#[test]
fn an_unknown_directive_is_refused() {
    let e = refusal("#elif X");
    assert!(e.contains("unknown preprocessor directive `#elif`"), "{e}");
}

#[test]
fn a_file_that_is_not_at_hand_is_asked_for() {
    let r = read_in("models", "#include \"lib/a.spthyi\"", &vec![]);
    match r.outcome {
        Outcome::NeedsFile(p) => assert_eq!(p, "models/lib/a.spthyi"),
        _ => panic!("the file was not asked for"),
    }
}

#[test]
fn a_file_that_cannot_be_read_is_an_error() {
    let files = vec![file("models/a.spthyi", Err("no such file"))];
    match read_in("models", "#include \"a.spthyi\"", &files).outcome {
        Outcome::Failed(e) => {
            let m = e.render();
            assert!(
                m.contains("failed to read included file models/a.spthyi: no such file"),
                "{m}"
            );
        }
        _ => panic!("the file was read"),
    }
}

#[test]
fn a_file_is_read_each_time_it_is_included() {
    let files = vec![file("/m/a.spthyi", Ok("rule A: [ ] --> [ ]\n"))];
    let r = read_in("/m", "#include \"a.spthyi\"\n#include \"/m/a.spthyi\"", &files);
    match r.outcome {
        Outcome::Done(t) => assert_eq!(rule_names(&t), vec!["A", "A"]),
        _ => panic!("not read"),
    }
}

#[test]
fn an_open_file_is_shown_with_its_chain() {
    let files = vec![
        file("/m/a", Ok("#include \"b\"\n")),
        file("/m/b", Ok("#include \"a\"\n")),
    ];
    match read_in("/m", "#include \"a\"", &files).outcome {
        Outcome::Failed(e) => {
            let m = e.render();
            assert!(m.contains("`#include` cycle: /m/a -> /m/b -> /m/a"), "{m}");
        }
        _ => panic!("the cycle was read"),
    }
}

#[test]
fn an_included_file_ends_with_its_items() {
    let files = vec![file("/m/a", Ok("rule A: [ ] --> [ ]\nend\n"))];
    match read_in("/m", "#include \"a\"", &files).outcome {
        Outcome::Failed(e) => {
            let m = e.render();
            assert!(m.contains("unexpected trailing input in included file"), "{m}");
        }
        _ => panic!("the rest was passed over"),
    }
}

#[test]
fn names_are_held_apart_across_files() {
    let files = vec![file("/m/a", Ok("rule A: [ ] --> [ Out('a') ]\n"))];
    match read_in("/m", "#include \"a\"\nrule A: [ ] --> [ ]", &files).outcome {
        Outcome::Failed(e) => {
            let m = e.render();
            assert!(m.contains("duplicate rule: A"), "{m}");
        }
        _ => panic!("both rules were read"),
    }
    let r = parse_diff_theory_with_base(
        "theory T begin #include \"a\"\nrule A: [ ] --> [ ] end",
        &[],
        Some("/m".to_string()),
        &files,
    );
    match r.outcome {
        Outcome::Done(t) => assert!(t.is_diff && rule_names(&t).len() == 2),
        _ => panic!("not read"),
    }
}

#[test]
fn the_manifest_lists_the_files_in_order() {
    let files = vec![
        file("/m/lib/a", Ok("#include \"b\"\n")),
        file("/m/lib/b", Ok("rule B: [ ] --> [ ]\n")),
    ];
    let r = parse_theory_with_manifest(
        "theory T begin #include \"lib/a\"\nend",
        &[],
        "/m/main.spthy".to_string(),
        false,
        &files,
    );
    assert!(!r.axiom_warning);
    match r.outcome {
        Outcome::Done((t, inputs)) => {
            assert_eq!(rule_names(&t), vec!["B"]);
            let seen: Vec<(String, Option<String>)> =
                inputs.into_iter().map(|a| (a.physical, a.staged)).collect();
            assert_eq!(
                seen,
                vec![
                    ("/m/main.spthy".to_string(), Some("main.spthy".to_string())),
                    ("/m/lib/a".to_string(), Some("lib/a".to_string())),
                    ("/m/lib/b".to_string(), Some("lib/b".to_string())),
                ]
            );
        }
        _ => panic!("not read"),
    }
}

#[test]
fn a_retired_axiom_is_warned_of() {
    let body = format!("axiom R: {CLAIM}");
    assert!(read_in(".", &body, &vec![]).axiom_warning);
    assert!(!read_in(".", "", &vec![]).axiom_warning);
}

#[test]
fn functions_stand_in_order_once() {
    let mut syms: Vec<FunSym> = Vec::new();
    insert_sym(&mut syms, "h", FunOptions::plain(2));
    insert_sym(&mut syms, "g", FunOptions::plain(1));
    insert_sym(&mut syms, "h", FunOptions::plain(1));
    insert_sym(&mut syms, "g", FunOptions::plain(1));
    let seen: Vec<(String, usize)> = syms.into_iter().map(|s| (s.name, s.opts.arity)).collect();
    assert_eq!(
        seen,
        vec![("g".to_string(), 1), ("h".to_string(), 1), ("h".to_string(), 2)]
    );
    let mut names: Vec<String> = Vec::new();
    insert_name(&mut names, "b");
    insert_name(&mut names, "ab");
    insert_name(&mut names, "b");
    insert_name(&mut names, "a");
    assert_eq!(names, vec!["a", "ab", "b"]);
}

#[test]
fn rules_of_the_intruder_are_read() {
    let rules = parse_intruder_rules(
        &pair_maude_sig(),
        "rule (modulo AC) c_pair: [ !KU( x ), !KU( y ) ] --[ !KU( <x, y> ) ]-> [ !KU( <x, y> ) ]\n",
    )
    .expect("read");
    assert_eq!(rules.len(), 1);
    assert_eq!(rules[0].name, "c_pair");
    assert_eq!(rules[0].premises.len(), 2);
    assert!(parse_intruder_rules(&pair_maude_sig(), "lemma A").is_err());
    assert_eq!(parse_intruder_rules(&pair_maude_sig(), " \n").expect("none").len(), 0);
}

#[test]
fn a_formula_takes_up_the_text() {
    assert!(parse_formula_str("All x. P(x) @ #i ==> F ", &pair_maude_sig()).is_ok());
    let e = parse_formula_str("F end", &pair_maude_sig()).expect_err("more text");
    assert!(e.render().contains("trailing garbage in formula string"), "{}", e.render());
}

#[test]
fn text_without_comments_is_kept() {
    assert_eq!(remove_comments("a\n b * c"), "a\n b * c");
    assert_eq!(remove_comments("a // b\nc /* d */\ne"), "a \nc e");
    assert_eq!(remove_comments("a\n// b\nc"), "a\nc");
}

#[test]
fn literals_are_printable() {
    assert_eq!(show_lit_string("a\"b\\\n\t\u{7}"), "\"a\\\"b\\\\\\n\\t\\a\"");
    assert_eq!(show_lit_string("∀1x"), "\"\\8704\\&1x\"");
    assert_eq!(show_lit_string("\u{7f}"), "\"\\127\"");
    assert!(show_lit_string("é\u{0}").chars().all(|c| ' ' <= c && c <= '~'));
}

#[test]
fn an_error_in_a_stored_proof_is_placed_in_the_theory() {
    let src = "theory T begin\nlemma L: \"T\"\nsimplify\nsolve( frob )\nend";
    let e = parse_theory(src, &[]).expect_err("no such goal");
    assert_eq!(e.line, 4);
}

#[test]
fn reserved_words_are_no_names() {
    let e = parse_theory("theory rule begin end", &[]).expect_err("reserved");
    assert!(e.render().contains("unexpected reserved word \"rule\""), "{}", e.render());
    assert_eq!((e.line, e.col), (1, 12));
}

#[test]
fn the_furthest_error_is_shown() {
    let e = parse_theory("theory T begin\nfrob\nend", &[]).expect_err("no item");
    assert_eq!((e.line, e.col, e.offset), (2, 5, 19));
    let e = parse_theory("theory T start", &[]).expect_err("no begin");
    assert!(e.render().contains("configuration or begin"), "{}", e.render());
}

#[test]
fn paths_are_taken_apart_and_joined() {
    assert!(path_is_absolute("/a") && !path_is_absolute("a"));
    assert_eq!(join_path("a", "b"), "a/b");
    assert_eq!(join_path("a/", "b"), "a/b");
    assert_eq!(join_path("", "b"), "b");
    assert_eq!(join_path("a", "/b"), "/b");
    assert_eq!(parent_path("/a/b"), Some("/a".to_string()));
    assert_eq!(parent_path("a"), Some("".to_string()));
    assert_eq!(parent_path("/"), None);
    assert_eq!(path_file_name("/a/b/"), Some("b".to_string()));
    assert_eq!(path_file_name("a/.."), None);
}

#[test]
fn an_exception_shows_where_it_was_raised() {
    let g = GhcError {
        message: "m".to_string(),
        call_site: "a.hs:1:2 in p:M".to_string(),
    };
    assert_eq!(
        g.display_exception(),
        "m\nCallStack (from HasCallStack):\n  error, called at a.hs:1:2 in p:M"
    );
    let e = theory("macros: exp(x) = x").expect_err("a builtin name");
    assert!(e.ghc_error.is_some());
    assert_eq!(e.render(), "`\"exp\"` is a reserved function name for builtins.");
}

#[test]
fn an_error_names_its_source() {
    let e = parse_theory("theory", &[]).expect_err("no name").with_source("m.spthy");
    assert!(e.render().starts_with("\"m.spthy\" (line 1, column 7):"), "{}", e.render());
}

#[test]
fn defined_variables_are_replaced() {
    let t = theory("rule A: let x = 'a' y = <x, 'b'> in [ In(y) ] --> [ Out(<x, y>) ]");
    let t = t.expect("read");
    let TheoryItem::Rule(r) = &t.items[0] else {
        panic!("no rule");
    };
    let a = Term::PubLit("a".to_string());
    let b = Term::PubLit("b".to_string());
    assert_eq!(r.premises[0].args[0], Term::Pair(vec![a, b]));
    assert!(!format!("{:?}", r.conclusions).contains("Var("));
}

#[test]
fn a_dead_else_ends_at_its_own_endif() {
    let body = "#ifdef A\nrule R: [ ] --> [ ]\n#else\n#ifdef B\nbuiltins: hashing\n#endif\n\
                builtins: signing\nlemma (\n#endif\nrule S: [ ] --> [ ]";
    let t = parse_theory(&format!("theory T begin\n{body}\nend"), &["A"]).expect("read");
    assert_eq!(t.items.len(), 2);
    assert_eq!(rule_names(&t), vec!["R", "S"]);
}

#[test]
fn a_plain_theory_takes_paths_as_they_are_written() {
    let src = "theory T begin #include \"lib/a\"\nend";
    let files = vec![file("lib/a", Ok("rule A: [ ] --> [ ]\n"))];
    let t = result(parser::parse_theory(src, &[], &files)).expect("read");
    assert_eq!(rule_names(&t), vec!["A"]);
    let d = result(parser::parse_diff_theory(src, &["diff"], &files)).expect("read");
    assert!(d.is_diff && !t.is_diff);
    match parser::parse_theory(src, &[], &vec![]).outcome {
        Outcome::NeedsFile(p) => assert_eq!(p, "lib/a"),
        _ => panic!("the file was not asked for"),
    }
}

#[test]
fn literals_tell_texts_apart() {
    assert_ne!(show_lit_string("\u{1}2"), show_lit_string("\u{c}"));
    assert_ne!(show_lit_string("\\n"), show_lit_string("\n"));
    assert_ne!(show_lit_string("\u{7f}&"), show_lit_string("\u{7f}"));
}

#[test]
fn the_directory_serves_includes_only() {
    let body = "heuristic: s\nlemma L: \"T\"\nrule A: [ ] --> [ ]";
    let a = result(read_in("/a", body, &vec![])).expect("read");
    let b = result(read_in("/b", body, &vec![])).expect("read");
    assert_eq!(format!("{a:?}"), format!("{b:?}"));
}

#[test]
fn the_manifest_has_the_theory_of_the_directory() {
    let src = "theory T begin lemma L: \"T\"\n#include \"a\"\nend";
    let files = vec![file("/m/a", Ok("lemma M: \"T\"\n"))];
    let plain = result(parse_theory_with_base(src, &[], Some("/m".to_string()), &files));
    let plain = plain.expect("read");
    let r = parse_theory_with_manifest(src, &[], "/m/x.spthy".to_string(), false, &files);
    let Outcome::Done((listed, inputs)) = r.outcome else {
        panic!("not read");
    };
    assert_eq!(inputs.len(), 2);
    let sources = |t: &Theory| -> Vec<(String, Option<String>)> {
        let mut v = Vec::new();
        for x in &t.items {
            if let TheoryItem::Lemma(l) = x {
                v.push((l.name.clone(), l.source_file.clone()));
            }
        }
        v
    };
    let inner = ("M".to_string(), Some("/m/a".to_string()));
    assert_eq!(sources(&plain), vec![("L".to_string(), None), inner.clone()]);
    let outer = ("L".to_string(), Some("/m/x.spthy".to_string()));
    assert_eq!(sources(&listed), vec![outer, inner]);
}

#[test]
fn the_endif_of_a_dead_else_may_run_into_the_text() {
    let body = "#ifdef A\n#else\nlemma (\n#endifrule S: [ ] --> [ ]";
    let t = parse_theory(&format!("theory T begin\n{body}\nend"), &["A"]).expect("read");
    assert_eq!(rule_names(&t), vec!["S"]);
}

#[test]
fn anything_may_follow_the_end() {
    let src = "theory T begin\n// not the end\nrule A: [ ] --> [ ]\nend";
    let t = parse_theory(src, &[]).expect("read");
    for rest in [
        "\nrule B: [ ] --> [ ]\nend",
        "\n---------- summary ----------",
        " /* analysis",
        "\n\"'(((",
        "\n#include \"gone\"",
        "*/",
    ] {
        let u = parse_theory(&format!("{src}{rest}"), &[]).expect("read");
        assert_eq!(t, u, "{rest}");
    }
    assert!(parse_theory(&format!("{src}ing"), &[]).is_err());
    assert!(parse_theory(&format!("{src}-less"), &[]).is_err());
}

#[test]
fn a_theory_may_use_the_word_end_before_its_end() {
    let src = "theory T begin\n/* the end */ text{* the end *}\nexport e: \"the end \"\n\
               rule end: [ In('the end') ] --> [ ]\nend end";
    assert_eq!(parse_theory(src, &[]).expect("read").items.len(), 3);
    let e = parse_theory("theory T begin\n/* the end */\nlemma (\nend", &[]).expect_err("no lemma");
    assert_eq!(e.line, 3);
}
