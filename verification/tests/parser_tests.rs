use tamarin_rs::ast::{
    Atom, BinOp, DeclarableOption, Fact, FactAnnotation, Formula, FunctionDecl, GoalSpec, LSort, Process,
    ProcessComb, Rule, SelectorExpr, Term, Theory, TheoryItem, VarSpec,
};
use tamarin_rs::debug::pred_fact_text;
use tamarin_rs::error::{show_char_token, show_lit_string, Message, ParseError};
use tamarin_rs::parser::{
    self, parse_formula_str, parse_parens_goal, parse_theory_with_base, Outcome, Reading,
};
use tamarin_rs::signature::{pair_maude_sig, FunOptions, FunSym, MaudeSig};
use tamarin_rs::state::{Parser, SourceFile};
use tamarin_rs::values::{copy_facts, copy_formula, copy_rule, copy_term};

fn result(r: Reading<Theory>) -> Result<Theory, ParseError> {
    match r.outcome {
        Outcome::Done(t) => Ok(t),
        Outcome::Failed(e) => Err(e),
        Outcome::NeedsFile(path) => panic!("{path} is not at hand"),
    }
}

fn parse_theory(input: &str, flags: &[&str]) -> Result<Theory, ParseError> {
    result(parser::parse_theory(input, flags, &vec![]))
}

fn parse_diff_theory(input: &str, flags: &[&str]) -> Result<Theory, ParseError> {
    result(parser::parse_diff_theory(input, flags, &vec![]))
}

fn with_multiset(mut msig: MaudeSig) -> MaudeSig {
    msig.enable_mset = true;
    msig
}

#[test]
fn predicate_diagnostics_space_multiple_annotations() {
    let fact = Fact {
        persistent: false,
        name: "P".into(),
        args: Vec::new(),
        annotations: vec![FactAnnotation::SolveLast, FactAnnotation::SolveFirst],
    };
    assert_eq!(pred_fact_text(&fact), "P( )[+, -]");
}

#[test]
fn diff_theory_validates_but_does_not_lower_diff_proofs() {
    let src = "theory D begin
        diffLemma observational_equivalence:
        rule-equivalence
        case Rule
        by sorry
        qed
        end";
    let parsed = parse_diff_theory(src, &[]).expect("parse diff theory");
    assert!(parsed.is_diff);
    let TheoryItem::DiffLemma(lemma) = &parsed.items[0] else {
        panic!("expected diff lemma");
    };
    let proof = lemma.proof.as_ref().expect("stored diff proof");
    assert!(proof.tree.is_none());

    assert!(parse_diff_theory("theory D begin diffLemma E: rule-equivalence end", &[]).is_err());
}

#[test]
fn diff_theory_checks_each_lemma_namespace() {
    let formula = "\"All #i. A() @ i ==> A() @ i\"";
    for body in [
        format!("lemma L [left]: {formula} lemma L [left]: {formula}"),
        format!("lemma L [right]: {formula} lemma L: {formula}"),
        "diffLemma D: by sorry diffLemma D: by sorry".to_string(),
    ] {
        let src = format!("theory D begin {body} end");
        assert!(
            parse_diff_theory(&src, &[]).is_err(),
            "accepted duplicate namespace: {body}"
        );
    }
    let src = format!("theory D begin lemma L [left]: {formula} lemma L [right]: {formula} end");
    parse_diff_theory(&src, &[]).expect("the two side-specific stores are independent");
}

fn parse_formula_str_sig(s: &str) -> Result<Formula, ParseError> {
    parse_formula_str(s, &pair_maude_sig())
}

fn sig_parser(msig: &MaudeSig) -> Parser {
    let mut p = Parser::new("", &[], false);
    p.seed_signature(msig);
    p
}

fn goal_term(src: &str, msig: &MaudeSig) -> Result<Term, ParseError> {
    parse_parens_goal(&format!("({src} \u{228F} y)"), &sig_parser(msig)).map(|(g, _)| match g {
        GoalSpec::Subterm(small, _) => small,
        other => panic!("expected a subterm goal for {src}, got {other:?}"),
    })
}

fn pe(source: &str, line: u32, col: u32, messages: Vec<Message>) -> String {
    ParseError {
        line,
        col,
        offset: 0,
        source: source.to_string(),
        messages,
        ghc_error: None,
    }
    .render()
}

#[test]
fn frame_sysunexpect_and_expect() {
    let s = pe(
        "f.spthy",
        1,
        1,
        vec![
            Message::SysUnExpect("\"t\"".into()),
            Message::Expect("\"theory\"".into()),
        ],
    );
    assert_eq!(
        s,
        "\"f.spthy\" (line 1, column 1):\nunexpected \"t\"\nexpecting \"theory\""
    );
}

#[test]
fn frame_eof_is_end_of_input() {
    let s = pe(
        "f",
        5,
        1,
        vec![
            Message::SysUnExpect(String::new()),
            Message::Expect("\"end\"".into()),
        ],
    );
    assert_eq!(
        s,
        "\"f\" (line 5, column 1):\nunexpected end of input\nexpecting \"end\""
    );
}

#[test]
fn frame_expecting_commas_or() {
    let s = pe(
        "f",
        4,
        7,
        vec![
            Message::SysUnExpect("\"]\"".into()),
            Message::Expect("\".\"".into()),
            Message::Expect("\",\"".into()),
            Message::Expect("\")\"".into()),
        ],
    );
    assert_eq!(
        s,
        "\"f\" (line 4, column 7):\nunexpected \"]\"\nexpecting \".\", \",\" or \")\""
    );
}

#[test]
fn non_binary_ac_declaration_is_a_parse_error() {
    let err = parse_theory(
        "theory AC3 begin\n\nfunctions: f/3 [AC]\n\nrule R: [ ] --[ ]-> [ ]\n\nend\n",
        &[],
    )
    .unwrap_err()
    .with_source("ac3.spthy");
    assert_eq!(
        err.render(),
        "\"ac3.spthy\" (line 5, column 1):\nunexpected \"r\"\n\
             conflicting arity : AC function must be binary"
    );

    let err = parse_theory("theory AC5 begin\n\nfunctions: f/3 [AC], g/1\n\nend\n", &[])
        .unwrap_err()
        .with_source("ac5.spthy");
    assert_eq!(
        err.render(),
        "\"ac5.spthy\" (line 3, column 20):\nunexpected \",\"\n\
             conflicting arity : AC function must be binary"
    );

    assert!(parse_theory("theory AC begin\n\nfunctions: f/2 [AC]\n\nend\n", &[]).is_ok());
}

fn decl_probe_err(name: &str, body: &str) -> String {
    parse_theory(&format!("theory {name} begin\n\n{body}\n\nend\n"), &[])
        .unwrap_err()
        .with_source("p.spthy")
        .render()
}

#[test]
fn builtin_reserved_name_check_precedes_the_arity_and_ac_checks() {
    assert_eq!(
        decl_probe_err("B1", "builtins: hashing\nfunctions: h/3 [AC]"),
        "\"p.spthy\" (line 6, column 1):\nunexpected \"e\"\n\
             `h` conflicts with builtin(s) [\"hashing\"] \
             (builtin: (1,Public,Constructor,NotNDC), requested: (3,Public,Constructor,NotNDC))"
    );

    assert_eq!(
        decl_probe_err("B7", "builtins: hashing\nfunctions: h/1, h/3 [AC]"),
        "\"p.spthy\" (line 6, column 1):\nunexpected \"e\"\n\
             `h` conflicts with builtin(s) [\"hashing\"] \
             (builtin: (1,Public,Constructor,NotNDC), requested: (3,Public,Constructor,NotNDC))"
    );

    assert_eq!(
        decl_probe_err("E1", "builtins: dest-pairing\nfunctions: fst/1 [AC]"),
        "\"p.spthy\" (line 6, column 1):\nunexpected \"e\"\n\
             `fst` conflicts with builtin(s) [\"dest-pairing\"] \
             (builtin: (1,Public,Destructor,NotNDC), requested: (1,Public,Constructor,NotNDC))"
    );

    for (attr, shown) in [
        ("private", "(1,Private,Constructor,NotNDC)"),
        ("destructor", "(1,Public,Destructor,NotNDC)"),
        ("NDC", "(1,Public,Constructor,IsNDC)"),
        ("NDC-diff", "(1,Public,Constructor,IsNDCDiff)"),
    ] {
        assert_eq!(
            decl_probe_err("P", &format!("builtins: hashing\nfunctions: h/1 [{attr}]")),
            format!(
                "\"p.spthy\" (line 6, column 1):\nunexpected \"e\"\n\
                     `h` conflicts with builtin(s) [\"hashing\"] \
                     (builtin: (1,Public,Constructor,NotNDC), requested: {shown})"
            ),
            "attribute {attr}"
        );
    }

    assert_eq!(
        decl_probe_err("P6", "builtins: asymmetric-encryption\nfunctions: pk/2"),
        "\"p.spthy\" (line 6, column 1):\nunexpected \"e\"\nexpecting \"[\"\n\
             `pk` conflicts with builtin(s) [\"asymmetric-encryption\",\"signing\",\
             \"dest-asymmetric-encryption\",\"dest-signing\",\"revealing-signing\"] \
             (builtin: (1,Public,Constructor,NotNDC), requested: (2,Public,Constructor,NotNDC))"
    );

    assert_eq!(
        decl_probe_err(
            "P12",
            "builtins: dest-symmetric-encryption\nfunctions: sdec/2"
        ),
        "\"p.spthy\" (line 6, column 1):\nunexpected \"e\"\nexpecting \"[\"\n\
             `sdec` conflicts with builtin(s) [\"symmetric-encryption\",\
             \"dest-symmetric-encryption\"] (builtin: (2,Public,Destructor,NotNDC), \
             requested: (2,Public,Constructor,NotNDC))"
    );

    assert_eq!(
        decl_probe_err("P9", "builtins: locations-report\nfunctions: rep/2"),
        "\"p.spthy\" (line 6, column 1):\nunexpected \"e\"\nexpecting \"[\"\n\
             `rep` conflicts with builtin(s) [\"locations-report\"] \
             (builtin: (2,Private,Constructor,NotNDC), requested: (2,Public,Constructor,NotNDC))"
    );
}

#[test]
fn declaration_diagnostics_carry_the_attribute_bracket_expectation() {
    assert_eq!(
        decl_probe_err("B2", "builtins: hashing\nfunctions: h/1, h/2"),
        "\"p.spthy\" (line 6, column 1):\nunexpected \"e\"\nexpecting \"[\"\n\
             `h` conflicts with builtin(s) [\"hashing\"] \
             (builtin: (1,Public,Constructor,NotNDC), requested: (2,Public,Constructor,NotNDC))"
    );
    assert_eq!(
        decl_probe_err("P24", "builtins: hashing\nfunctions: h/3 []"),
        "\"p.spthy\" (line 6, column 1):\nunexpected \"e\"\n\
             `h` conflicts with builtin(s) [\"hashing\"] \
             (builtin: (1,Public,Constructor,NotNDC), requested: (3,Public,Constructor,NotNDC))"
    );
}

#[test]
fn conflicting_arities_is_a_parse_error() {
    let err = parse_theory("theory CONF1 begin\n\nfunctions: f/1, f/3\n\nend\n", &[])
        .unwrap_err()
        .with_source("conf1.spthy");
    assert_eq!(
        err.render(),
        "\"conf1.spthy\" (line 5, column 1):\nunexpected \"e\"\nexpecting \"[\"\n\
             conflicting arities/options (1,Public,Constructor,NotNDC) and \
             (3,Public,Constructor,NotNDC) for `f`. Please choose a different name \
             for this function."
    );

    assert_eq!(
        decl_probe_err("P22", "builtins: reliable-channel\nfunctions: h/1, h/2"),
        "\"p.spthy\" (line 6, column 1):\nunexpected \"e\"\nexpecting \"[\"\n\
             conflicting arities/options (1,Public,Constructor,NotNDC) and \
             (2,Public,Constructor,NotNDC) for `h`. Please choose a different name \
             for this function."
    );
    assert_eq!(
        decl_probe_err("P29", "macros: mh(x, y) = x\nfunctions: mh/2"),
        "\"p.spthy\" (line 6, column 1):\nunexpected \"e\"\nexpecting \"[\"\n\
             conflicting arities/options (2,Private,Destructor,NotNDC) and \
             (2,Public,Constructor,NotNDC) for `mh`. Please choose a different name \
             for this function."
    );
}

#[test]
fn builtins_item_rejects_conflicting_functions_and_macros() {
    assert_eq!(
        decl_probe_err("P17", "functions: h/2\nbuiltins: hashing"),
        "\"p.spthy\" (line 6, column 1):\nunexpected \"e\"\n\
             Builtin 'hashing' conflicts with existing function(s) (same name, different \
             arity or function options): [\"h\"]. Please remove these function definitions \
             or use different names."
    );
    assert_eq!(
        decl_probe_err("P28", "macros: h(x) = x\nbuiltins: hashing"),
        "\"p.spthy\" (line 6, column 1):\nunexpected \"e\"\n\
             Builtin 'hashing' conflicts with existing macro '[\"h\"]'"
    );

    let err = parse_theory(
        "theory P26 begin\n\nbuiltins: symmetric-encryption, dest-symmetric-encryption\n\
             functions: sdec/2\n\nend\n",
        &[],
    )
    .unwrap_err()
    .with_source("p26.spthy");
    assert_eq!(
        err.render(),
        "\"p26.spthy\" (line 4, column 1):\nunexpected \"f\"\n\
             Builtin 'dest-symmetric-encryption' conflicts with existing function(s) \
             (same name, different arity or function options): [\"sdec\"]. Please remove \
             these function definitions or use different names."
    );

    assert_eq!(
        decl_probe_err(
            "P30",
            "builtins: symmetric-encryption, dest-symmetric-encryption\n"
        ),
        "\"p.spthy\" (line 6, column 1):\nunexpected \"e\"\n\
             Builtin 'dest-symmetric-encryption' conflicts with existing function(s) \
             (same name, different arity or function options): [\"sdec\"]. Please remove \
             these function definitions or use different names."
    );
    assert_eq!(
        decl_probe_err("P31", "builtins: signing, dest-signing\n"),
        "\"p.spthy\" (line 6, column 1):\nunexpected \"e\"\n\
             Builtin 'dest-signing' conflicts with existing function(s) (same name, \
             different arity or function options): [\"verify\"]. Please remove these \
             function definitions or use different names."
    );

    assert!(parse_theory("theory OK begin\n\nbuiltins: dest-pairing\n\nend\n", &[]).is_ok());
}

#[test]
fn matching_and_exempt_function_declarations_are_accepted() {
    for body in [
        "builtins: hashing\nfunctions: h/1",
        "builtins: hashing\nfunctions: h/1, h/1",
        "functions: fst/1 [destructor]",
        "builtins: dest-pairing\nfunctions: fst/1 [destructor]",
        "builtins: diffie-hellman\nfunctions: exp/3",
        "builtins: multiset\nfunctions: union/3",
        "builtins: natural-numbers\nfunctions: tplus/3",

        "builtins: signing, revealing-signing\nfunctions: pk/1",
    ] {
        assert!(
            parse_theory(&format!("theory P begin\n\n{body}\n\nend\n"), &[]).is_ok(),
            "should parse: {body}"
        );
    }
}

#[test]
fn theory_options_are_limited_to_the_shared_declarable_set() {
    let all = DeclarableOption::all()
        .iter()
        .map(|o| o.as_str())
        .collect::<Vec<_>>()
        .join(", ");
    assert!(parse_theory(&format!("theory P begin\noptions: {all}\nend"), &[]).is_ok());

    let err = parse_theory("theory P begin\noptions: unknown-option\nend", &[])
        .expect_err("unknown option must fail");
    assert_eq!(
        err.render(),
        "(line 2, column 10):\nunexpected \"u\"\nexpecting \
         \"translation-progress\", \"translation-allow-pattern-lookups\", \
         \"translation-state-optimisation\", \"translation-asynchronous-channels\" or \
         \"translation-compress-events\""
    );

    let err = parse_theory("theory P begin\noptions: translation-progressx\nend", &[])
        .expect_err("a valid option prefix must leave its suffix to the outer parser");
    assert_eq!(
        err.render(),
        "(line 2, column 31):\nunexpected \"\\n\"\nexpecting letter or \"{*\""
    );
}

#[test]
fn reserved_word_at_a_declaration_position() {
    for (src, line, col, word) in [
        (
            "theory D5\nbegin\n\nfunctions: diff/2\n\nend\n",
            4,
            16,
            "diff",
        ),
        ("theory D9\nbegin\n\n#define diff\n\nend\n", 4, 13, "diff"),
        (
            "theory R1\nbegin\n\nfunctions: let/2\n\nend\n",
            4,
            15,
            "let",
        ),
        ("theory R2\nbegin\n\nfunctions: in/2\n\nend\n", 4, 14, "in"),
        (
            "theory R3\nbegin\n\nfunctions: rule/2\n\nend\n",
            4,
            16,
            "rule",
        ),
        ("theory diff\nbegin\n\nend\n", 1, 12, "diff"),
        (
            "theory R6\nbegin\n\nrule diff:\n  [ ] --> [ ]\n\nend\n",
            4,
            10,
            "diff",
        ),
        (
            "theory R7\nbegin\n\nlemma diff:\n  exists-trace \"Ex #i. F() @ #i\"\n\nend\n",
            4,
            11,
            "diff",
        ),
    ] {
        let err = parse_theory(src, &[]).unwrap_err().with_source("r.spthy");
        assert_eq!(
            err.render(),
            format!(
                "\"r.spthy\" (line {line}, column {col}):\n\
                     unexpected reserved word \"{word}\"\nexpecting letter or digit"
            ),
            "source: {src:?}"
        );
    }

    assert!(parse_theory("theory D\nbegin\n\nfunctions: diffuse/2\n\nend\n", &[]).is_ok());

    let err = parse_theory(
        "theory R8 begin\n\npredicates: diff(x) <=> x = x\n\nend\n",
        &[],
    )
    .unwrap_err()
    .with_source("r8.spthy");
    assert_eq!(
        err.render(),
        "\"r8.spthy\" (line 3, column 17):\nunexpected reserved word \"diff\"\n\
             expecting predicate declaration"
    );
}

#[test]
fn item_position_error_carries_the_previous_items_trailing_labels() {
    let base = "\"pe.spthy\" (line 5, column 1):\nunexpected end of input\nexpecting ";
    let items = "\"heuristic\", \"tactic\", \"builtins\", \"options\", \"functions\", \
                     \"function\", \"equations\", \"macros\", \"restriction\", \"axiom\", \
                     \"test\", \"lemma\", \"rule\", letter, top-level process, \"let\", \
                     \"equivLemma\", \"diffEquivLemma\", predicate block, export block, \
                     \"#ifdef\", \"#define\", \"#include\" or \"end\"";
    let err = |body: &str| {
        parse_theory(&format!("theory PE begin\n\n{body}\n\n"), &[])
            .unwrap_err()
            .with_source("pe.spthy")
            .render()
    };

    assert_eq!(
        err("rule R: [ ] --[ ]-> [ ]"),
        format!("{base}\"variants\", {items}")
    );

    assert_eq!(err("builtins: hashing"), format!("{base}\",\", {items}"));

    assert_eq!(
        err("functions: f/2, g/1"),
        format!("{base}\"[\", \",\", {items}")
    );
    assert_eq!(
        err("functions: f/2, g/2 [AC]"),
        format!("{base}\",\", {items}")
    );

    assert_eq!(
        parse_theory(
            "theory PE begin\n\nrule R: [ ] --[ ]-> [ ]\nbuiltins: hashing\n\n",
            &[]
        )
        .unwrap_err()
        .with_source("pe.spthy")
        .render(),
        "\"pe.spthy\" (line 6, column 1):\nunexpected end of input\nexpecting \",\", ".to_string()
            + items
    );
}

fn diff_probe(args: &str) -> String {
    format!(
        "theory D\nbegin\n\nbuiltins: diffie-hellman\n\nrule RA:\n  \
             [ Fr(~a), Fr(~b) ] --[ Go( 'a' ) ]-> [ Out( diff({args}) ) ]\n\nend\n"
    )
}

fn diff_probe_err(args: &str, flags: &[&str]) -> String {
    parse_theory(&diff_probe(args), flags)
        .unwrap_err()
        .with_source("d.spthy")
        .render()
}

#[test]
fn diff_operator_without_the_diff_flag_is_a_parse_error() {
    assert_eq!(
        diff_probe_err("(~a*~b), ~a", &[]),
        "\"d.spthy\" (line 7, column 65):\nunexpected \")\"\nexpecting term\n\
             diff operator found, but flag diff not set"
    );

    for args in ["~a", "~a, ~b, ~a", ""] {
        let expected_col = 47 + args.len() + 7;
        for flags in [&[][..], &["diff"][..]] {
            assert_eq!(
                diff_probe_err(args, flags),
                format!(
                    "\"d.spthy\" (line 7, column {expected_col}):\nunexpected \")\"\n\
                         expecting term\nthe diff operator requires exactly 2 arguments"
                ),
                "args = {args:?}, flags = {flags:?}"
            );
        }
    }

    assert_eq!(
        diff_probe_err("diff(~a, ~b), ~b", &[]),
        "\"d.spthy\" (line 7, column 64):\nunexpected \",\"\nexpecting term\n\
             diff operator found, but flag diff not set"
    );
}

#[test]
fn diff_operator_is_rejected_in_equations() {
    for flags in [&[][..], &["diff"][..]] {
        let err = parse_theory(
            "theory D\nbegin\n\nfunctions: f/1, g/1\nequations: diff(x, x) = x\n\n\
                 rule RA:\n  [ Fr(~a) ] --> [ Out( ~a ) ]\n\nend\n",
            flags,
        )
        .unwrap_err()
        .with_source("d.spthy");
        assert_eq!(
            err.render(),
            "\"d.spthy\" (line 5, column 23):\nunexpected \"=\"\nexpecting term\n\
                 diff operator not allowed in equations",
            "flags = {flags:?}"
        );
    }
}

#[test]
fn bare_diff_token_is_a_parse_error() {
    let err = parse_theory(
        "theory D\nbegin\n\nrule RA:\n  [ Fr(~a) ] --> [ Out( diff ) ]\n\nend\n",
        &[],
    )
    .unwrap_err()
    .with_source("d.spthy");
    assert_eq!(
        err.render(),
        "\"d.spthy\" (line 5, column 30):\nunexpected \")\"\nexpecting term"
    );

    let err = parse_theory(
        "theory D\nbegin\n\nrule RA:\n  [ Fr(~a), Fr(~b) ] --> [ Out( diff{~a}~b ) ]\n\nend\n",
        &[],
    )
    .unwrap_err()
    .with_source("d.spthy");
    assert_eq!(
        err.render(),
        "\"d.spthy\" (line 5, column 37):\nunexpected reserved word \"diff\"\nexpecting term"
    );
}

#[test]
fn diff_operator_is_accepted_with_the_diff_flag() {
    let thy = parse_theory(&diff_probe("(~a*~b), ~a"), &["diff"]).expect("diff flag enables it");
    let mut seen = false;
    for item in &thy.items {
        if let TheoryItem::Rule(r) = item {
            for f in &r.conclusions {
                for t in &f.args {
                    if matches!(t, Term::Diff(_, _)) {
                        seen = true;
                    }
                }
            }
        }
    }
    assert!(seen, "expected a Term::Diff in the rule conclusion");

    assert!(parse_theory(
        "theory D\nbegin\n\nfunctions: diffuse/2\n\nrule RA:\n  \
             [ Fr(~a), Fr(~b) ] --> [ Out( diffuse(~a, ~b) ) ]\n\nend\n",
        &[]
    )
    .is_ok());
}

#[test]
fn frame_dedup_and_message_ordering() {
    let s = pe(
        "f",
        2,
        3,
        vec![
            Message::Message("raw note".into()),
            Message::Expect("\"a\"".into()),
            Message::Expect("\"a\"".into()),
            Message::Expect(String::new()),
            Message::SysUnExpect("\"x\"".into()),
        ],
    );
    assert_eq!(
        s,
        "\"f\" (line 2, column 3):\nunexpected \"x\"\nexpecting \"a\"\nraw note"
    );
}

#[test]
fn frame_sysunexpect_suppressed_by_unexpect() {
    let s = pe(
        "f",
        1,
        1,
        vec![
            Message::SysUnExpect("\"z\"".into()),
            Message::UnExpect("something".into()),
            Message::Expect("\"a\"".into()),
        ],
    );
    assert_eq!(
        s,
        "\"f\" (line 1, column 1):\nunexpected something\nexpecting \"a\""
    );
}

#[test]
fn frame_empty_messages_is_unknown() {
    let s = pe("f", 1, 1, vec![]);
    assert_eq!(s, "\"f\" (line 1, column 1):unknown parse error");
}

#[test]
fn frame_null_source_omits_quoted_name() {
    let s = pe("", 3, 2, vec![Message::Message("m".into())]);
    assert_eq!(s, "(line 3, column 2):\nm");
}

#[test]
fn show_char_token_escapes_like_haskell() {
    assert_eq!(show_char_token('t'), "\"t\"");
    assert_eq!(show_char_token(' '), "\" \"");
    assert_eq!(show_char_token('"'), "\"\\\"\"");
    assert_eq!(show_char_token('\n'), "\"\\n\"");
    assert_eq!(show_char_token('\t'), "\"\\t\"");
}

#[test]
fn show_lit_string_escapes_like_haskell() {
    assert_eq!(show_lit_string("ab"), "\"ab\"");
    assert_eq!(
        show_lit_string("\u{0B}\u{0C}\u{07}\u{08}"),
        "\"\\v\\f\\a\\b\""
    );
    assert_eq!(show_lit_string("a\"b\\c"), "\"a\\\"b\\\\c\"");
    assert_eq!(show_lit_string("\u{100}"), "\"\\256\"");
    assert_eq!(show_lit_string("\u{100}7"), "\"\\256\\&7\"");
}

#[test]
fn theory_keyword_error_matches_parsec() {
    let e = parse_theory("theary Foo\nbegin\nend\n", &[]).unwrap_err();
    assert_eq!(
        e.with_source("f.spthy").render(),
        "\"f.spthy\" (line 1, column 1):\nunexpected \"t\"\nexpecting \"theory\""
    );
}

#[test]
fn item_position_letters_expect_letter_or_comment() {
    let e = parse_theory("theory Foo\nbegin\nrul R:\n[]-->[]\nend\n", &[]).unwrap_err();
    assert_eq!(
        e.with_source("f").render(),
        "\"f\" (line 3, column 4):\nunexpected \" \"\nexpecting letter or \"{*\""
    );
}

#[test]
fn empty_theory() {
    let s = "theory Foo begin end";
    let t = parse_theory(s, &[]).unwrap();
    assert_eq!(t.name, "Foo");
    assert!(t.items.is_empty());
}

#[test]
fn theory_with_builtins() {
    let s = "theory T begin builtins: hashing, signing end";
    let t = parse_theory(s, &[]).unwrap();
    match &t.items[0] {
        TheoryItem::Builtins(v) => {
            assert_eq!(v, &vec!["hashing".to_string(), "signing".into()])
        }
        x => panic!("expected builtins, got {:?}", x),
    }
}

#[test]
fn simple_rule() {
    let s = r#"
            theory T begin
              rule R: [Fr(~k)] --[ Foo(~k) ]-> [ Out(~k) ]
            end
        "#;
    let t = parse_theory(s, &[]).unwrap();
    match &t.items[0] {
        TheoryItem::Rule(r) => {
            assert_eq!(r.name, "R");

            fn names(fs: &[Fact]) -> Vec<&str> {
                fs.iter().map(|f| f.name.as_str()).collect()
            }
            assert_eq!(names(&r.premises), ["Fr"]);
            assert_eq!(names(&r.actions), ["Foo"]);
            assert_eq!(names(&r.conclusions), ["Out"]);
        }
        x => panic!("expected rule, got {:?}", x),
    }
}

#[test]
fn lemma_with_quantifier() {
    let s = r#"
            theory T begin
              lemma secret: "All x #i. K(x) @ i ==> F"
            end
        "#;
    let t = parse_theory(s, &[]).unwrap();
    match &t.items[0] {
        TheoryItem::Lemma(l) => {
            assert_eq!(l.name, "secret");

            match &l.formula {
                Formula::Forall(vs, _) => assert_eq!(vs.len(), 2),
                other => panic!("expected Forall, got {:?}", other),
            }
        }
        x => panic!("expected lemma, got {:?}", x),
    }
}

#[test]
fn comment_handling() {
    let s = "/* outer */ theory T // line\n begin /* x /* y */ z */ end";
    let t = parse_theory(s, &[]).unwrap();
    assert_eq!(t.name, "T");

    assert!(t.items.is_empty(), "unexpected items: {:?}", t.items);
}

#[test]
fn term_application() {
    match goal_term("pair(<a, b>, ~k)", &pair_maude_sig()).unwrap() {
        Term::App(name, args) => {
            assert_eq!(name, "pair");

            assert!(
                matches!(args.as_slice(), [Term::Pair(p), Term::Var(_)] if p.len() == 2),
                "unexpected argument shape: {:?}",
                args
            );
        }
        other => panic!("expected App, got {:?}", other),
    }
}

#[test]
fn formula_string() {
    let f = parse_formula_str_sig("All x. P(x) ==> Q(x)").unwrap();
    match f {
        Formula::Forall(_, _) => {}
        _ => panic!("expected Forall"),
    }
}

#[test]
fn fatom_fact_lhs_of_relop_is_term_atom() {
    let f = parse_formula_str_sig("Foo(x) = Foo(y)").unwrap();
    match f {
        Formula::Atom(Atom::Eq(Term::App(l, _), Term::App(r, _))) => {
            assert_eq!(l, "Foo");
            assert_eq!(r, "Foo");
        }
        other => panic!("expected Eq(App,App), got {:?}", other),
    }

    let f = parse_formula_str_sig("A(x) << B(y)").unwrap();
    match f {
        Formula::Atom(Atom::Subterm(Term::App(l, _), Term::App(r, _))) => {
            assert_eq!(l, "A");
            assert_eq!(r, "B");
        }
        other => panic!("expected Subterm(App,App), got {:?}", other),
    }

    let f = parse_formula_str_sig("P(x) & Q(y)").unwrap();
    match f {
        Formula::And(a, _) => match *a {
            Formula::Atom(Atom::Pred(ref fa)) => assert_eq!(fa.name, "P"),
            ref other => panic!("expected Pred, got {:?}", other),
        },
        other => panic!("expected And, got {:?}", other),
    }

    let f = parse_formula_str_sig("P(x) ==> Q(y)").unwrap();
    match f {
        Formula::Implies(a, _) => match *a {
            Formula::Atom(Atom::Pred(ref fa)) => assert_eq!(fa.name, "P"),
            ref other => panic!("expected Pred LHS of ==>, got {:?}", other),
        },
        other => panic!("expected Implies, got {:?}", other),
    }
}

#[test]
fn type_p_only_capital_any_is_default() {
    let t = parse_theory("theory T begin functions: f(any):bitstring end", &[]).unwrap();
    let decl = t
        .items
        .iter()
        .find_map(|it| match it {
            TheoryItem::Functions(ds) => ds.iter().find(|d| d.name == "f"),
            _ => None,
        })
        .expect("function f");
    assert_eq!(decl.arg_types, vec![Some("any".to_string())]);
    assert_eq!(decl.out_type, Some("bitstring".to_string()));

    let t = parse_theory("theory T begin functions: g(Any):bitstring end", &[]).unwrap();
    let decl = t
        .items
        .iter()
        .find_map(|it| match it {
            TheoryItem::Functions(ds) => ds.iter().find(|d| d.name == "g"),
            _ => None,
        })
        .expect("function g");
    assert_eq!(decl.arg_types, vec![None]);
}

#[test]
fn empty_tuple_is_error_singleton_collapses() {
    let term = |src: &str| goal_term(src, &pair_maude_sig());
    assert!(term("<>").is_err(), "<> must be a parse error");

    match term("<x>").unwrap() {
        Term::Var(v) => assert_eq!(v.name, "x"),
        other => panic!("expected singleton to collapse to Var, got {:?}", other),
    }

    match term("<x, y>").unwrap() {
        Term::Pair(items) => assert_eq!(items.len(), 2),
        other => panic!("expected Pair, got {:?}", other),
    }
}

#[test]
fn fact_annotation_accepts_double_plus() {
    for (written, expected) in [
        ("[++]", vec![FactAnnotation::SolveFirst]),
        ("[+]", vec![FactAnnotation::SolveFirst]),
        ("[-]", vec![FactAnnotation::SolveLast]),
        ("[no_precomp]", vec![FactAnnotation::NoSources]),

        ("[-,++,no_precomp]", vec![
                FactAnnotation::SolveLast,
                FactAnnotation::SolveFirst,
                FactAnnotation::NoSources,
            ]),
        ("[]", vec![]),
        ("", vec![]),
    ] {
        let s =
            format!("theory T begin rule R: [ Fr(~k) ] --[ Foo(~k){written} ]-> [ Out(~k) ] end");
        let t = parse_theory(&s, &[]).unwrap_or_else(|e| panic!("{written}: {e:?}"));
        let rule = t
            .items
            .iter()
            .find_map(|it| match it {
                TheoryItem::Rule(r) => Some(r),
                _ => None,
            })
            .expect("rule R");
        assert_eq!(
            rule.actions[0].annotations, expected,
            "annotation {written}"
        );
    }
}

fn lemma_proof_raw(thy: &Theory) -> &str {
    let mut lemmas = thy.items.iter().filter_map(|it| match it {
        TheoryItem::Lemma(l) => Some(l),
        _ => None,
    });
    let l = lemmas.next().expect("a lemma");
    assert!(lemmas.next().is_none(), "expected exactly one lemma");
    &l.proof.as_ref().expect("lemma has a proof skeleton").raw
}

#[test]
fn malformed_stored_proof_fails_theory_parse() {
    let src = "theory T begin\nlemma L: \"T\"\nsimplify\nend";
    let err = parse_theory(src, &[]).expect_err("a bare intermediate method needs a child");
    assert_eq!((err.line, err.col), (4, 1));

    let src = "theory T begin\nlemma L: \"T\"\nby sorry trailing\nend";
    let err = parse_theory(src, &[]).expect_err("trailing proof text must not be discarded");
    assert!(err.render().contains("unexpected trailing proof text"));
}

fn has_casetest(thy: &Theory) -> bool {
    thy.items
        .iter()
        .any(|it| matches!(it, TheoryItem::CaseTest(_)))
}

#[test]
fn proof_skeleton_not_truncated_by_keyword_fact_arg() {
    let s = r#"theory T begin
  lemma L:
    "All x #i. Start(x) @ #i ==> F"
  simplify
  solve( Match( test, sid ) @ #i4 )
    case c
    by sorry
  qed
end"#;
    let t = parse_theory(s, &[]).expect("keyword-named goal arg must parse");
    assert!(
        !has_casetest(&t),
        "no CaseTest may be split out of the body"
    );
    let raw = lemma_proof_raw(&t);
    assert!(
        raw.contains("Match( test, sid )"),
        "proof raw truncated at/before `test`: {raw:?}"
    );
    assert!(raw.contains("qed"), "proof raw missing `qed`: {raw:?}");
}

#[test]
fn proof_skeleton_captures_mixed_sorted_indexed_and_keyword_args() {
    let s = r#"theory T begin
  lemma L:
    "All x #i. Start(x) @ #i ==> F"
  simplify
  solve( Foo( ~k, $A, k.1, test, sid ) @ #i1 )
    case c
    by sorry
  qed
end"#;
    let t = parse_theory(s, &[]).expect("mixed-arg goal must parse");
    assert!(!has_casetest(&t));
    let raw = lemma_proof_raw(&t);
    assert!(
        raw.contains("Foo( ~k, $A, k.1, test, sid )"),
        "mixed-arg goal truncated: {raw:?}"
    );
    assert!(raw.contains("qed"), "missing qed: {raw:?}");
}

#[test]
fn real_casetest_after_proof_still_recognized() {
    let s = r#"theory T begin
  lemma L:
    "All x #i. Start(x) @ #i ==> F"
  simplify
  solve( Foo( test, sid ) @ #i1 )
    case c
    by sorry
  qed
  test Reachable:
    "Ex #i. Bar() @ #i"
end"#;
    let t = parse_theory(s, &[]).expect("proof followed by CaseTest must parse");
    let raw = lemma_proof_raw(&t);
    assert!(
        raw.contains("Foo( test, sid )") && raw.contains("qed"),
        "proof body truncated: {raw:?}"
    );
    let ct = t
        .items
        .iter()
        .find_map(|it| match it {
            TheoryItem::CaseTest(c) => Some(c),
            _ => None,
        })
        .expect("top-level `test` CaseTest must be recognized after the proof");
    assert_eq!(ct.name, "Reachable");
}

#[test]
fn tactic_regex_with_unbalanced_paren_does_not_swallow_next_item() {
    let s = r#"theory T begin
  tactic: myTac
  presort: C
  prio:
    regex "In_A\( 'S', <'codes'"
  prio:
    regex "cp\("
  rule R: [ Fr(~k) ] --[ Created(~k) ]-> [ Out(~k) ]
end"#;
    let t = parse_theory(s, &[]).expect("tactic with unbalanced regex parens must parse");
    let tac = t
        .items
        .iter()
        .find_map(|it| match it {
            TheoryItem::Tactic(t) => Some(t),
            _ => None,
        })
        .expect("tactic present");
    assert_eq!(tac.prios.len(), 2);
    let SelectorExpr::Leaf(second) = &tac.prios[1].selectors[0] else {
        panic!("expected regex selector")
    };
    assert_eq!(second.name, "regex");
    assert_eq!(second.params, [r#"cp\("#]);

    let rule = t
        .items
        .iter()
        .find_map(|it| match it {
            TheoryItem::Rule(r) => Some(r),
            _ => None,
        })
        .expect("rule R must remain a separate top-level item");
    assert_eq!(rule.name, "R");
}

#[test]
fn tactic_blocks_require_a_selector() {
    for block in ["prio:", "deprio: {id}"] {
        let src = format!("theory T begin\ntactic: rank\n{block}\nrule R: [ ] --> [ ]\nend");
        let err = parse_theory(&src, &[]).expect_err("empty tactic block must fail");
        assert_eq!(
            err.render(),
            "(line 4, column 5):\nunexpected reserved word \"rule\"\nexpecting letter or digit"
        );
    }
}

#[test]
fn tactic_presort_requires_one_known_non_oracle_ranking() {
    for presort in ["sx", "z", "o"] {
        let src = format!("theory T begin\ntactic: rank\npresort: {presort}\nend");
        let err = parse_theory(&src, &[]).expect_err("invalid presort must fail");
        assert!(err.render().contains("unknown proof method ranking"));
    }
    for presort in ["s", "S", "p", "P", "c", "C", "i", "I"] {
        let src = format!("theory T begin\ntactic: rank\npresort: {presort}\nend");
        parse_theory(&src, &[]).unwrap_or_else(|e| panic!("valid presort {presort}: {e:?}"));
    }
}

#[test]
fn proof_case_label_named_after_keyword_does_not_truncate() {
    let s = r#"theory T begin
  lemma l:
    exists-trace "Ex x #i. Done(x) @ #i"
  simplify
  solve( A( x ) ▶₀ #i )
    case test
    SOLVED // trace found
  qed
end"#;
    let t = parse_theory(s, &[]).expect("`case test` must not truncate the proof");

    assert!(
        !has_casetest(&t),
        "case label `test` must not become a top-level CaseTest"
    );
    let raw = lemma_proof_raw(&t);
    assert!(
        raw.contains("case test"),
        "proof raw truncated at/before `case test`: {raw:?}"
    );
    assert!(
        raw.contains("SOLVED") && raw.contains("qed"),
        "proof raw missing SOLVED/qed: {raw:?}"
    );
}

#[test]
fn multiple_case_labels_named_after_keywords_do_not_truncate() {
    let s = r#"theory T begin
  lemma l:
    all-traces "All x #i. Done(x) @ #i ==> F"
  simplify
  solve( A( x ) ▶₀ #i )
    case rule
      by sorry
    next
    case lemma
      by sorry
    next
    case function
      by sorry
  qed
end"#;
    let t = parse_theory(s, &[]).expect("keyword-named case labels must not truncate");

    assert!(
        !t.items.iter().any(|it| matches!(it, TheoryItem::Rule(_))),
        "a `case rule` label must not be split into a top-level rule"
    );
    assert!(
        !t.items
            .iter()
            .any(|it| matches!(it, TheoryItem::Functions(_))),
        "a `case function` label must not be split into a top-level functions decl"
    );
    let raw = lemma_proof_raw(&t);
    for label in ["case rule", "case lemma", "case function"] {
        assert!(raw.contains(label), "proof raw missing {label:?}: {raw:?}");
    }
    assert!(raw.contains("qed"), "proof raw missing qed: {raw:?}");
}

#[test]
fn keyword_after_proof_still_terminates_capture() {
    let s = r#"theory T begin
  lemma l:
    exists-trace "Ex x #i. Done(x) @ #i"
  simplify
  solve( A( x ) ▶₀ #i )
    case test
    SOLVED
  qed
  rule two:
    [ A(x) ] --[ Done(x) ]-> [ ]
end"#;
    let t = parse_theory(s, &[]).expect("proof followed by a real rule must parse");
    let raw = lemma_proof_raw(&t);
    assert!(
        raw.contains("case test") && raw.contains("qed"),
        "proof body truncated: {raw:?}"
    );
    assert!(
        !raw.contains("rule two"),
        "the following rule leaked into the proof capture: {raw:?}"
    );
    let rule = t
        .items
        .iter()
        .find_map(|it| match it {
            TheoryItem::Rule(r) => Some(r),
            _ => None,
        })
        .expect("the top-level `rule two` must remain a separate item");
    assert_eq!(rule.name, "two");
}

fn fun_decl(t: &Theory, name: &str) -> FunctionDecl {
    for it in &t.items {
        if let TheoryItem::Functions(ds) = it {
            for d in ds {
                if d.name == name {
                    return d.clone();
                }
            }
        }
    }
    panic!("function {name} must be declared");
}

fn equation_lhs(src: &str) -> Term {
    let t = parse_theory(src, &[]).expect("theory must parse");
    for it in &t.items {
        if let TheoryItem::Equations { eqs, .. } = it {
            return copy_term(&eqs[0].lhs);
        }
    }
    panic!("theory must contain an equation");
}

#[test]
fn function_attributes_ac_ndc() {
    let t = parse_theory("theory T begin functions: a/2 [AC] end", &[]).unwrap();
    let a = fun_decl(&t, "a");
    assert!(a.ac && !a.ndc && !a.ndc_diff);

    let t = parse_theory("theory T begin functions: b/2 [AC,NDC] end", &[]).unwrap();
    let b = fun_decl(&t, "b");
    assert!(b.ac && b.ndc && !b.ndc_diff);

    let t = parse_theory("theory T begin functions: c/2 [NDC-diff] end", &[]).unwrap();
    let c = fun_decl(&t, "c");
    assert!(!c.ac && !c.ndc && c.ndc_diff);

    let src = "theory T begin functions: d/2 [AC, NDC-diff, NDC] end";
    let t = parse_theory(src, &[]).unwrap();
    let d = fun_decl(&t, "d");
    assert!(d.ac && d.ndc && d.ndc_diff);

    let src = "theory T begin functions: e/1 [private,destructor] end";
    let t = parse_theory(src, &[]).unwrap();
    let e = fun_decl(&t, "e");
    assert!(e.private && e.destructor && !e.ac && !e.ndc && !e.ndc_diff);
}

#[test]
fn ac_symbol_parses_infix_left_associative() {
    let src = "theory T begin functions: add/2 [AC] equations: x add y = z end";
    match equation_lhs(src) {
        Term::BinOp(BinOp::AcFct(f), _, _) => assert_eq!(f, "add"),
        other => panic!("expected an infix `add`, got {other:?}"),
    }

    let src = "theory T begin functions: add/2 [AC] equations: x add y add z = w end";
    match equation_lhs(src) {
        Term::BinOp(BinOp::AcFct(f), l, _) if f == "add" => match *l {
            Term::BinOp(BinOp::AcFct(f), _, _) if f == "add" => {}
            other => panic!("expected a nested `add` on the LEFT, got {other:?}"),
        },
        other => panic!("expected an infix `add`, got {other:?}"),
    }
}

#[test]
fn ac_symbols_nest_in_name_order() {
    let src = "theory T begin functions: g/2 [AC], f/2 [AC] equations: x f y g z = w end";
    match equation_lhs(src) {
        Term::BinOp(BinOp::AcFct(f), _, r) if f == "f" => match *r {
            Term::BinOp(BinOp::AcFct(g), _, _) if g == "g" => {}
            other => panic!("expected `g` to bind tighter than `f`, got {other:?}"),
        },
        other => panic!("expected `f` at the root, got {other:?}"),
    }
}

#[test]
fn ac_infix_requires_a_preceding_declaration() {
    let src = "theory T begin equations: x add y = z end";
    assert!(parse_theory(src, &[]).is_err(), "`add` is not infix here");
}

#[test]
fn colon_suffix_is_a_sapic_type_in_a_process_and_a_sort_in_a_rule() {
    fn process_let_binder(src: &str) -> VarSpec {
        let thy = parse_theory(src, &[]).expect("parses");
        for item in &thy.items {
            if let TheoryItem::TopLevelProcess(Process::Comb {
                comb: ProcessComb::Let {
                    pat: Term::Var(v), ..
                },
                ..
            }) = item
            {
                return v.clone();
            }
        }
        panic!("no let binder in {src}");
    }

    let v = process_let_binder(
        "theory T begin builtins: natural-numbers process: let x:nat = %c %+ %1 in 0 end",
    );
    assert_eq!((v.sort, v.typ.as_deref()), (LSort::Msg, Some("nat")));
    let v = process_let_binder("theory T begin process: let x:msg = y in 0 end");
    assert_eq!((v.sort, v.typ.as_deref()), (LSort::Msg, Some("msg")));
    let v = process_let_binder("theory T begin process: let x:Any = y in 0 end");
    assert_eq!((v.sort, v.typ.as_deref()), (LSort::Msg, None));

    let v = process_let_binder(
        "theory T begin builtins: natural-numbers process: let %x:nat = %c in 0 end",
    );
    assert_eq!((v.sort, v.typ.as_deref()), (LSort::Nat, Some("nat")));
    let v = process_let_binder("theory T begin process: let #x = y in 0 end");
    assert_eq!((v.sort, v.typ.as_deref()), (LSort::Node, Some("node")));
    let v = process_let_binder("theory T begin process: let #x:Any = y in 0 end");
    assert_eq!((v.sort, v.typ.as_deref()), (LSort::Node, None));

    let thy = parse_theory(
        "theory T begin builtins: natural-numbers rule R: [ In(x:nat) ] --[ ]-> [ ] end",
        &[],
    )
    .expect("parses");
    let mut seen = None;
    for item in &thy.items {
        if let TheoryItem::Rule(r) = item {
            if let Term::Var(v) = &r.premises[0].args[0] {
                seen = Some(v.clone());
            }
        }
    }
    let v = seen.expect("rule premise variable");
    assert_eq!((v.sort, v.typ.as_deref()), (LSort::Nat, None));
}

fn rule_premise_term(src: &str) -> Term {
    let thy = parse_theory(src, &[]).expect("parses");
    for item in &thy.items {
        if let TheoryItem::Rule(r) = item {
            return copy_term(&r.premises[0].args[0]);
        }
    }
    panic!("no rule in {src}");
}

fn tuple_var_specs(t: &Term) -> Vec<(&str, u64, LSort)> {
    let Term::Pair(items) = t else {
        panic!("expected a tuple, got {t:?}");
    };
    items
        .iter()
        .map(|i| match i {
            Term::Var(v) => (v.name.as_str(), v.idx, v.sort),
            other => panic!("expected a variable, got {other:?}"),
        })
        .collect()
}

fn var_of(t: &Term) -> &VarSpec {
    match t {
        Term::Var(v) => v,
        other => panic!("expected a variable, got {other:?}"),
    }
}

#[test]
fn bare_variable_is_msg_sorted() {
    let t = rule_premise_term(
        "theory T begin builtins: natural-numbers \
         rule R: [ In(<x, x.1, ~f, $p, #i, %n>) ] --[ ]-> [ ] end",
    );
    assert_eq!(
        tuple_var_specs(&t),
        vec![
            ("x", 0, LSort::Msg),
            ("x", 1, LSort::Msg),
            ("f", 0, LSort::Fresh),
            ("p", 0, LSort::Pub),
            ("i", 0, LSort::Node),
            ("n", 0, LSort::Nat),
        ]
    );
}

#[test]
fn sort_suffix_parses_to_the_plain_sort() {
    let t = rule_premise_term(
        "theory T begin builtins: natural-numbers \
         rule R: [ In(<x:msg, x:fresh, x:pub, x:node, x:nat>) ] --[ ]-> [ ] end",
    );
    assert_eq!(
        tuple_var_specs(&t),
        vec![
            ("x", 0, LSort::Msg),
            ("x", 0, LSort::Fresh),
            ("x", 0, LSort::Pub),
            ("x", 0, LSort::Node),
            ("x", 0, LSort::Nat),
        ]
    );
}

#[test]
fn timepoint_positions_are_node_sorted() {
    let sort_of = |src: &str| -> Vec<LSort> {
        match parse_formula_str_sig(src).expect("parses") {
            Formula::Atom(Atom::Action(_, t)) | Formula::Atom(Atom::Last(t)) => {
                vec![var_of(&t).sort]
            }
            Formula::Atom(Atom::Less(l, r)) | Formula::Atom(Atom::Eq(l, r)) => {
                vec![var_of(&l).sort, var_of(&r).sort]
            }
            other => panic!("expected one atom, got {other:?}"),
        }
    };
    assert_eq!(sort_of("A(x) @ i"), vec![LSort::Node]);
    assert_eq!(sort_of("last(i)"), vec![LSort::Node]);
    assert_eq!(sort_of("i < j"), vec![LSort::Node, LSort::Node]);
    assert_eq!(sort_of("#k = l"), vec![LSort::Node, LSort::Node]);
    assert_eq!(sort_of("k:node = l"), vec![LSort::Node, LSort::Node]);

    assert_eq!(sort_of("k = l"), vec![LSort::Msg, LSort::Msg]);

    for invalid in [
        "$i < $j",
        "x:msg < j",
        "f(i) < j",
        "$i = #j",
        "f(i) = #j",
        "k = #l",
    ] {
        assert!(
            parse_formula_str_sig(invalid).is_err(),
            "accepted non-node operands in {invalid}"
        );
    }
}

#[test]
fn nullary_symbol_name_in_a_timepoint_position_is_a_variable() {
    let concs =
        rule_conclusions("theory T begin\nfunctions: c/0\nrule R:\n  [ ] --> [ Out(c) ]\nend");
    assert!(matches!(&concs[0].args[0], Term::App(n, a) if n == "c" && a.is_empty()));

    let thy = parse_theory(
        "theory T begin\n\
         functions: c/0\n\
         lemma l1: \"All #i. A( ) @ c\"\n\
         lemma l2: \"last(c)\"\n\
         lemma l3: \"All #i. #i < c\"\n\
         lemma l4: \"All #i. #i = c\"\n\
         end",
        &[],
    )
    .expect("parses");
    let mut seen = 0;
    for it in &thy.items {
        let TheoryItem::Lemma(l) = it else { continue };
        let f = match &l.formula {
            Formula::Forall(_, body) => copy_formula(body),
            other => copy_formula(other),
        };
        let t = match f {
            Formula::Atom(Atom::Action(_, t)) | Formula::Atom(Atom::Last(t)) => t,
            Formula::Atom(Atom::Less(_, r)) | Formula::Atom(Atom::Eq(_, r)) => r,
            other => panic!("expected one atom in {}, got {other:?}", l.name),
        };
        let v = var_of(&t);
        assert_eq!(
            (v.name.as_str(), v.idx, v.sort),
            ("c", 0, LSort::Node),
            "{} reads `c` as a constant",
            l.name
        );
        seen += 1;
    }
    assert_eq!(seen, 4);
}

#[test]
fn bare_binder_and_bare_message_operand_are_msg_sorted() {
    let f = parse_formula_str(
        "All A B seq1 seq2 #i #j.(Seq_Sent(A, B, seq1) @ #i \
         & Seq_Sent(A, B, seq2) @ #j & #i < #j ==> Ex dif. seq2 = seq1 + dif )",
        &with_multiset(pair_maude_sig()),
    )
    .expect("parses");
    let Formula::Forall(_, body) = &f else {
        panic!("expected a universal quantifier, got {f:?}");
    };
    let Formula::Implies(_, concl) = body.as_ref() else {
        panic!("expected an implication, got {body:?}");
    };
    let Formula::Exists(vs, eq) = concl.as_ref() else {
        panic!("expected an existential quantifier, got {concl:?}");
    };
    assert_eq!(
        (vs[0].name.as_str(), vs[0].idx, vs[0].sort),
        ("dif", 0, LSort::Msg)
    );
    let Formula::Atom(Atom::Eq(_, sum)) = eq.as_ref() else {
        panic!("expected an equality, got {eq:?}");
    };
    let Term::BinOp(BinOp::Union, l, r) = sum else {
        panic!("expected a multiset union, got {sum:?}");
    };
    assert_eq!(var_of(l).sort, LSort::Msg);
    assert_eq!(var_of(r).sort, LSort::Msg);
}

fn rule_conclusions(src: &str) -> Vec<Fact> {
    parse_theory(src, &[])
        .expect("parses")
        .items
        .iter()
        .find_map(|it| match it {
            TheoryItem::Rule(r) => Some(copy_facts(&r.conclusions)),
            _ => None,
        })
        .expect("the theory declares a rule")
}

#[test]
fn bare_nullary_symbol_parses_as_application() {
    let concs = rule_conclusions(
        "theory T begin\n\
         builtins: signing, xor, diffie-hellman, natural-numbers\n\
         functions: c/0\n\
         macros: m() = 'x'\n\
         rule R:\n\
           [ ] --> [ Out(c), Out(true), Out(zero), Out(one), Out(tone), Out(m) ]\n\
         end",
    );
    for (i, name) in ["c", "true", "zero", "one", "tone", "m"].iter().enumerate() {
        assert!(
            matches!(&concs[i].args[0], Term::App(n, a) if n == name && a.is_empty()),
            "{name} is not a 0-arity application: {:?}",
            concs[i].args[0]
        );
    }

    for term in ["c.1", "c:msg"] {
        let src =
            format!("theory T begin\nfunctions: c/0\nrule R:\n  [ ] --> [ Out({term}) ]\nend");
        assert!(parse_theory(&src, &[]).is_err(), "{term} must be rejected");
    }

    assert!(parse_theory(
        "theory T begin\nfunctions: c/0\nprocess: out(c:ty)\nend",
        &[],
    )
    .is_err());

    let concs =
        rule_conclusions("theory T begin\nfunctions: c/0\nrule R:\n  [ ] --> [ Out(~c) ]\nend");
    let v = var_of(&concs[0].args[0]);
    assert_eq!((v.name.as_str(), v.sort), ("c", LSort::Fresh));

    let concs = rule_conclusions(
        "theory T begin\n\
         rule R:\n\
           [ ] --> [ Out(c) ]\n\
         functions: c/0\n\
         end",
    );
    assert_eq!(var_of(&concs[0].args[0]).name, "c");
}

#[test]
fn nullary_symbol_matches_the_whole_identifier() {
    let concs = rule_conclusions(
        "theory T begin\n\
         functions: c/0\n\
         rule R:\n\
           [ ] --> [ Out(cx) ]\n\
         end",
    );
    assert_eq!(var_of(&concs[0].args[0]).name, "cx");
}

#[test]
fn fixed_literals_do_not_claim_identifier_prefixes() {
    for name in ["1abc", "DH_neutralx"] {
        let src = format!("theory T begin\nrule R:\n  [ ] --> [ Out({name}) ]\nend");
        let concs = rule_conclusions(&src);
        assert_eq!(var_of(&concs[0].args[0]).name, name);
    }
}

#[test]
fn prefix_exp_resolving_to_the_dh_symbol_is_binop_exp() {
    let concs = rule_conclusions(
        "theory T begin\n\
         builtins: diffie-hellman\n\
         rule R:\n\
           [ ] --> [ Out(exp('a', 'b')), Out(exp{'a'}'b'), Out('a' ^ 'b') ]\n\
         end",
    );
    for c in &concs {
        assert!(
            matches!(&c.args[0], Term::BinOp(BinOp::Exp, _, _)),
            "expected an exponentiation node, got {:?}",
            c.args[0]
        );
    }

    let concs = rule_conclusions(
        "theory T begin\n\
         functions: exp/2 [private]\n\
         rule R:\n\
           [ ] --> [ Out(exp('a', 'b')) ]\n\
         end",
    );
    assert!(
        matches!(&concs[0].args[0], Term::App(n, a) if n == "exp" && a.len() == 2),
        "expected an application, got {:?}",
        concs[0].args[0]
    );

    let concs = rule_conclusions(
        "theory T begin\n\
         functions: exp/2 [AC]\n\
         rule R:\n\
           [ ] --> [ Out(exp('a', 'b')) ]\n\
         end",
    );
    assert!(
        matches!(&concs[0].args[0], Term::BinOp(BinOp::AcFct(_), _, _)),
        "expected an AC node, got {:?}",
        concs[0].args[0]
    );
}

#[test]
fn structural_mode_resolves_nullary_names_from_the_signature() {
    let mut msig = pair_maude_sig();
    msig.st_fun_syms.push(FunSym {
        name: "c".to_string(),
        opts: FunOptions::plain(0),
    });
    msig.st_ac_fun_syms.push("add".to_string());

    assert!(matches!(goal_term("c", &msig).unwrap(), Term::App(n, a) if n == "c" && a.is_empty()));
    assert!(matches!(
        goal_term("(x add c)", &msig).unwrap(),
        Term::BinOp(BinOp::AcFct(_), _, _)
    ));

    assert!(matches!(
        goal_term("c", &pair_maude_sig()).unwrap(),
        Term::Var(_)
    ));
    assert!(goal_term("(x add c)", &pair_maude_sig()).is_err());
}

fn only_rule(src: &str) -> Rule {
    let thy = parse_theory(src, &[]).expect("parses");
    thy.items
        .iter()
        .find_map(|i| match i {
            TheoryItem::Rule(r) => Some(copy_rule(r)),
            _ => None,
        })
        .expect("one rule")
}

#[test]
fn let_inlining_substitutes_in_premises() {
    let r = only_rule(
        r#"theory T begin
            rule R: let r = ~k in [In(r), Fr(~k)] --[]-> []
        end"#,
    );
    let in_fact = &r.premises[0];
    assert_eq!(in_fact.name, "In");
    match &in_fact.args[0] {
        Term::Var(vs) if vs.name == "k" && vs.sort == LSort::Fresh => {}
        other => panic!("expected ~k after subst, got {other:?}"),
    }
}

#[test]
fn let_inlining_is_sequential() {
    let r = only_rule(
        r#"theory T begin
            builtins: hashing
            rule R: let a = ~k b = h(a) in [In(b), Fr(~k)] --[]-> []
        end"#,
    );
    match &r.premises[0].args[0] {
        Term::App(name, args) if name == "h" => match &args[0] {
            Term::Var(vs) if vs.name == "k" && vs.sort == LSort::Fresh => {}
            other => panic!("expected h(~k), got h({other:?})"),
        },
        other => panic!("expected h(~k), got {other:?}"),
    }
}

#[test]
fn let_inlining_leaves_a_forward_reference_free() {
    let r = only_rule(
        r#"theory T begin
            builtins: hashing
            rule R: let a = h(b) b = ~k in [In(a), Fr(~k)] --[]-> []
        end"#,
    );
    match &r.premises[0].args[0] {
        Term::App(name, args) if name == "h" => match &args[0] {
            Term::Var(vs) if vs.name == "b" && vs.sort != LSort::Fresh => {}
            other => panic!("expected h(b) with free b, got h({other:?})"),
        },
        other => panic!("expected h(b), got {other:?}"),
    }
}

#[test]
fn let_inlining_substitutes_in_actions_and_conclusions() {
    let r = only_rule(
        r#"theory T begin
            rule R: let r = ~k in [Fr(~k)] --[Use(r)]-> [Out(r)]
        end"#,
    );
    match &r.actions[0].args[0] {
        Term::Var(vs) if vs.name == "k" && vs.sort == LSort::Fresh => {}
        other => panic!("expected Use(~k), got Use({other:?})"),
    }
    match &r.conclusions[0].args[0] {
        Term::Var(vs) if vs.name == "k" && vs.sort == LSort::Fresh => {}
        other => panic!("expected Out(~k), got Out({other:?})"),
    }
}

#[test]
fn let_inlining_reaches_an_embedded_restriction() {
    let r = only_rule(
        r#"theory T begin
            builtins: hashing
            rule R: let m = h(~k) in [Fr(~k)] --[ _restrict(m = ~k) ]-> []
        end"#,
    );
    match &r.embedded_restrictions[0] {
        Formula::Atom(Atom::Eq(lhs, _)) => match lhs {
            Term::App(name, args) if name == "h" => match &args[0] {
                Term::Var(vs) if vs.name == "k" && vs.sort == LSort::Fresh => {}
                other => panic!("expected h(~k), got h({other:?})"),
            },
            other => panic!("expected h(~k), got {other:?}"),
        },
        other => panic!("expected an equality atom, got {other:?}"),
    }
}

#[test]
fn let_inlining_respects_quantifier_shadowing() {
    let r = only_rule(
        r#"theory T begin
            rule R: let x = 'value' in []
              --[ _restrict(Ex x #i. A(x) @ i) ]-> []
        end"#,
    );
    match &r.embedded_restrictions[0] {
        Formula::Exists(vars, body) => {
            let x = vars.iter().find(|v| v.name == "x").expect("bound x");
            match body.as_ref() {
                Formula::Atom(Atom::Action(fact, _)) => {
                    assert_eq!(fact.args, vec![Term::Var(x.clone())]);
                }
                other => panic!("expected an action atom, got {other:?}"),
            }
        }
        other => panic!("expected an existential, got {other:?}"),
    }
}

#[test]
fn let_inlining_avoids_capture_by_quantifiers() {
    let r = only_rule(
        r#"theory T begin
            rule R: let x = y in []
              --[ _restrict(Ex y #i. A(x,y) @ i) ]-> []
        end"#,
    );
    match &r.embedded_restrictions[0] {
        Formula::Exists(vars, body) => {
            let bound_y = vars.iter().find(|v| v.name == "y").expect("bound y");
            match body.as_ref() {
                Formula::Atom(Atom::Action(fact, _)) => {
                    let [Term::Var(inserted_y), Term::Var(original_y)] = fact.args.as_slice()
                    else {
                        panic!("expected two variable arguments, got {:?}", fact.args);
                    };
                    assert_ne!(inserted_y, bound_y, "replacement y was captured");
                    assert_eq!(original_y, bound_y, "bound occurrence was not renamed");
                }
                other => panic!("expected an action atom, got {other:?}"),
            }
        }
        other => panic!("expected an existential, got {other:?}"),
    }
}

#[test]
fn rule_let_requires_a_binding_and_in_terminator() {
    for src in [
        "theory T begin rule R: let in [] --[]-> [] end",
        "theory T begin rule R: let x = y [] --[]-> [] end",
    ] {
        assert!(parse_theory(src, &[]).is_err(), "unexpectedly parsed {src}");
    }
}

#[test]
fn rule_let_rejects_sorts_outside_msg_and_nat() {
    for binder in ["$x", "~x", "#x"] {
        let src = format!("theory T begin rule R: let {binder} = y in [] --[]-> [] end");
        assert!(
            parse_theory(&src, &[]).is_err(),
            "unexpectedly parsed {src}"
        );
    }
}

#[test]
fn a_let_binder_is_a_variable_not_a_nullary_constant() {
    let thy = parse_theory(
        "theory L\nbegin\n\nfunctions: c/0\n\nrule R:\n  let c = 'lit'\n  in\n  \
         [ ] --[ E(c) ]-> [ ]\n\nend\n",
        &[],
    )
    .expect("parses");
    let rule = thy
        .items
        .iter()
        .find_map(|i| match i {
            TheoryItem::Rule(r) => Some(r),
            _ => None,
        })
        .expect("one rule");
    assert_eq!(
        rule.actions[0].args,
        vec![Term::App("c".to_string(), vec![])]
    );
}

struct IncludeDir(String, Vec<SourceFile>);

impl IncludeDir {
    fn new(name: &str) -> Self {
        IncludeDir(format!("/theories/{name}"), Vec::new())
    }

    fn write(&mut self, name: &str, body: &str) -> String {
        let path = format!("{}/{name}", self.0);
        self.1.push(SourceFile {
            path: path.clone(),
            canonical: path.clone(),
            content: Ok(body.to_string()),
        });
        path
    }

    fn parse(&self, entry: &str) -> Result<Theory, ParseError> {
        let file = self.1.iter().find(|f| f.path == entry).expect("read entry");
        let body = file.content.as_ref().expect("read entry").clone();
        match parse_theory_with_base(&body, &[], Some(self.0.clone()), &self.1).outcome {
            Outcome::Done(t) => Ok(t),
            Outcome::Failed(e) => Err(e),
            Outcome::NeedsFile(path) => panic!("{path} is not at hand"),
        }
    }
}

#[test]
fn include_cycle_is_reported_with_the_chain() {
    let mut d = IncludeDir::new("cycle");
    d.write("x.spthyi", "#include \"y.spthyi\"\n");
    d.write("y.spthyi", "#include \"x.spthyi\"\n");
    let entry = d.write(
        "main.spthy",
        "theory C\nbegin\n#include \"x.spthyi\"\nend\n",
    );

    let err = d.parse(&entry).expect_err("a cycle must not parse");
    let msg = err.render();
    assert!(msg.contains("`#include` cycle"), "{msg}");

    assert!(
        msg.contains("x.spthyi") && msg.contains("y.spthyi"),
        "{msg}"
    );
}

#[test]
fn self_include_is_a_cycle() {
    let mut d = IncludeDir::new("self");
    d.write("loop.spthyi", "#include \"loop.spthyi\"\n");
    let entry = d.write(
        "main.spthy",
        "theory S\nbegin\n#include \"loop.spthyi\"\nend\n",
    );

    let msg = d
        .parse(&entry)
        .expect_err("self-include must not parse")
        .render();
    assert!(msg.contains("`#include` cycle"), "{msg}");
}

#[test]
fn diamond_include_is_not_a_cycle() {
    let mut d = IncludeDir::new("diamond");
    d.write(
        "core.spthyi",
        "rule Core: [ Fr(~n) ] --[ Core(~n) ]-> [ ]\n",
    );
    d.write("a.spthyi", "#include \"core.spthyi\"\n");
    d.write("b.spthyi", "#include \"core.spthyi\"\n");
    let entry = d.write(
        "main.spthy",
        "theory D\nbegin\n#include \"a.spthyi\"\n#include \"b.spthyi\"\nend\n",
    );

    let _ = d.parse(&entry);
}

#[test]
fn deep_include_cycle_is_reported() {
    let mut d = IncludeDir::new("deep");
    d.write("one.spthyi", "#include \"two.spthyi\"\n");
    d.write("two.spthyi", "#include \"three.spthyi\"\n");
    d.write("three.spthyi", "#include \"one.spthyi\"\n");
    let entry = d.write(
        "main.spthy",
        "theory Deep\nbegin\n#include \"one.spthyi\"\nend\n",
    );

    let msg = d
        .parse(&entry)
        .expect_err("deep cycle must not parse")
        .render();
    assert!(msg.contains("`#include` cycle"), "{msg}");
    assert!(
        msg.contains("three.spthyi"),
        "the chain names the closing edge: {msg}"
    );
}

#[test]
fn acyclic_include_still_parses() {
    let mut d = IncludeDir::new("ok");
    d.write(
        "core.spthyi",
        "rule Core: [ Fr(~n) ] --[ Core(~n) ]-> [ ]\n",
    );
    let entry = d.write(
        "main.spthy",
        "theory OK\nbegin\n#include \"core.spthyi\"\nend\n",
    );

    let thy = d.parse(&entry).expect("acyclic include parses");
    assert!(
        thy.items
            .iter()
            .any(|i| matches!(i, TheoryItem::Rule(r) if r.name == "Core")),
        "the included rule is spliced into the item stream"
    );
}
