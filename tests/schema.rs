use libtor::generate::{derive_helper_attr, GenerationError};
use libtor::render::{cli_join, render, render_declaration, split_first_space_args, Outcome};
use libtor::resolve::{resolve_variant, GenErrorKind, Piece, Strategy};
use libtor::schema::{
    annotated, directive_text, load_schema_exec, load_variant_exec, parse_directive_text, AnnotatedField,
    AnnotatedVariant, Directive, Shape, SyntaxErrorKind,
};
use libtor::subcommand::TorSubcommand;
use libtor::testgen::{compile_tests, generate_test};
use libtor::TorFlag;

fn strings(items: &[&str]) -> Vec<String> {
    items.iter().map(|s| s.to_string()).collect()
}

fn positional(name: &str, fields: usize, annotations: &[&str]) -> AnnotatedVariant {
    AnnotatedVariant {
        name: name.to_string(),
        shape: if fields == 0 { Shape::Unit } else { Shape::Positional },
        fields: (0..fields).map(|_| AnnotatedField { label: None, annotations: vec![] }).collect(),
        annotations: strings(annotations),
    }
}

fn tokens(outcome: Outcome) -> Vec<String> {
    match outcome {
        Outcome::Tokens(t) => t,
        other => panic!("no tokens: {:?}", other),
    }
}

#[test]
fn parses_each_directive_form() {
    match parse_directive_text("\"-f {}\"") {
        Ok(Directive::Template(t)) => assert_eq!(t, "-f {}"),
        other => panic!("{:?}", other),
    }
    match parse_directive_text("rename = \"SocksPort\"") {
        Ok(Directive::Rename(n)) => assert_eq!(n, "SocksPort"),
        other => panic!("{:?}", other),
    }
    match parse_directive_text("  with=\"log_expand\"  ") {
        Ok(Directive::Custom(f)) => assert_eq!(f, "log_expand"),
        other => panic!("{:?}", other),
    }
    match parse_directive_text("ignore") {
        Ok(Directive::Ignore) => {}
        other => panic!("{:?}", other),
    }
    match parse_directive_text("test = (\"a)b\".into(), vec![1]) => \"x \\\"y\\\"\"") {
        Ok(Directive::Test(Some(args), expected)) => {
            assert_eq!(args, "(\"a)b\".into(), vec![1])");
            assert_eq!(expected, "x \"y\"");
        }
        other => panic!("{:?}", other),
    }
    match parse_directive_text("test = { password: \"p\".into() } => \"--hash-password \\\"p\\\"\"") {
        Ok(Directive::Test(Some(args), expected)) => {
            assert_eq!(args, "{ password: \"p\".into() }");
            assert_eq!(expected, "--hash-password \"p\"");
        }
        other => panic!("{:?}", other),
    }
    match parse_directive_text("test = => \"--version\"") {
        Ok(Directive::Test(None, expected)) => assert_eq!(expected, "--version"),
        other => panic!("{:?}", other),
    }
}

#[test]
fn refuses_malformed_directives() {
    assert_eq!(parse_directive_text("bogus = \"x\"").unwrap_err(), SyntaxErrorKind::UnknownKeyword);
    assert_eq!(parse_directive_text("").unwrap_err(), SyntaxErrorKind::UnknownKeyword);
    assert_eq!(parse_directive_text("rename \"x\"").unwrap_err(), SyntaxErrorKind::MalformedPair);
    assert_eq!(parse_directive_text("\"a\" trailing").unwrap_err(), SyntaxErrorKind::MalformedPair);
    assert_eq!(parse_directive_text("test = (1) \"x\"").unwrap_err(), SyntaxErrorKind::MissingArrow);
    assert_eq!(parse_directive_text("rename = SocksPort").unwrap_err(), SyntaxErrorKind::ExpectedString);
    assert_eq!(parse_directive_text("test = (1) => x").unwrap_err(), SyntaxErrorKind::ExpectedString);
    assert_eq!(parse_directive_text("\"unterminated").unwrap_err(), SyntaxErrorKind::ExpectedString);
    assert_eq!(parse_directive_text("test = (1 => \"x\"").unwrap_err(), SyntaxErrorKind::MalformedPair);
}

#[test]
fn loader_names_the_offending_directive() {
    let bad = positional("Thing", 1, &["\"{}\"", "colour = \"red\""]);
    let err = load_variant_exec(&bad).unwrap_err();
    assert_eq!(err.variant, "Thing");
    assert_eq!(err.directive, "colour = \"red\"");
    assert_eq!(err.kind, SyntaxErrorKind::UnknownKeyword);

    let on_variant = positional("Thing", 1, &["ignore"]);
    assert_eq!(load_variant_exec(&on_variant).unwrap_err().kind, SyntaxErrorKind::Misplaced);

    let mut on_field = positional("Thing", 1, &[]);
    on_field.fields[0].annotations = strings(&["rename = \"x\""]);
    assert_eq!(load_variant_exec(&on_field).unwrap_err().kind, SyntaxErrorKind::Misplaced);
}

#[test]
fn unit_variant_renders_its_name() {
    let decl = positional("VerifyConfig", 0, &[]);
    let t = tokens(render_declaration(&decl, &vec![]));
    assert_eq!(t, strings(&["VerifyConfig"]));
    assert_eq!(cli_join(&t), "VerifyConfig");
}

#[test]
fn positional_variant_quotes_its_fields() {
    let decl = positional("Pair", 2, &[]);
    let t = tokens(render_declaration(&decl, &strings(&["a", "b"])));
    assert_eq!(t, strings(&["Pair", "a b"]));
    assert_eq!(cli_join(&t), "Pair \"a b\"");
}

#[test]
fn ignored_fields_are_not_rendered() {
    let mut decl = positional("Pair", 3, &[]);
    decl.fields[1].annotations = strings(&["ignore"]);
    let first = tokens(render_declaration(&decl, &strings(&["a", "SECRET", "c"])));
    let second = tokens(render_declaration(&decl, &strings(&["a", "other", "c"])));
    assert_eq!(first, strings(&["Pair", "a c"]));
    assert_eq!(first, second);

    let mut templ = positional("Pair", 2, &["\"pair {}\""]);
    templ.fields[0].annotations = strings(&["ignore"]);
    let t = tokens(render_declaration(&templ, &strings(&["hidden", "shown"])));
    assert_eq!(t, strings(&["pair", "shown"]));
}

#[test]
fn arity_mismatch_is_not_rendered() {
    let decl = positional("Pair", 2, &[]);
    assert!(matches!(render_declaration(&decl, &strings(&["only one"])), Outcome::Unrendered));
}

#[test]
fn custom_wins_over_template() {
    let decl = positional("Log", 1, &["\"Log {}\"", "with = \"log_expand\"", "with = \"other\""]);
    match render_declaration(&decl, &strings(&["notice"])) {
        Outcome::Custom(f) => assert_eq!(f, "log_expand"),
        other => panic!("{:?}", other),
    }
}

#[test]
fn a_later_template_replaces_an_earlier_one() {
    let decl = positional("Port", 1, &["\"First {}\"", "\"Second {}\""]);
    assert_eq!(tokens(render_declaration(&decl, &strings(&["1"]))), strings(&["Second", "1"]));
}

#[test]
fn rename_applies_only_to_the_default_strategy() {
    let renamed = positional("SocksPortAddress", 1, &["rename = \"SocksPort\""]);
    assert_eq!(tokens(render_declaration(&renamed, &strings(&["9050"]))), strings(&["SocksPort", "9050"]));
    let templated = positional("SocksPortAddress", 1, &["rename = \"SocksPort\"", "\"Port {}\""]);
    assert_eq!(tokens(render_declaration(&templated, &strings(&["9050"]))), strings(&["Port", "9050"]));
}

#[test]
fn named_fields_need_a_template() {
    let decl = AnnotatedVariant {
        name: "Keygen".to_string(),
        shape: Shape::Named,
        fields: vec![AnnotatedField { label: Some("password".to_string()), annotations: vec![] }],
        annotations: vec![],
    };
    let v = load_variant_exec(&decl).unwrap();
    let err = resolve_variant(&v).unwrap_err();
    assert_eq!(err.kind, GenErrorKind::MissingTemplate);
    assert_eq!(err.variant, "Keygen");
}

#[test]
fn shape_and_placeholder_mismatches() {
    let mut labelled = positional("P", 1, &[]);
    labelled.fields[0].label = Some("x".to_string());
    let v = load_variant_exec(&labelled).unwrap();
    assert_eq!(resolve_variant(&v).unwrap_err().kind, GenErrorKind::UnsupportedShape);

    let too_many = load_variant_exec(&positional("P", 1, &["\"{} {}\""])).unwrap();
    assert_eq!(resolve_variant(&too_many).unwrap_err().kind, GenErrorKind::PlaceholderMismatch);
    let too_few = load_variant_exec(&positional("P", 2, &["\"{}\""])).unwrap();
    assert_eq!(resolve_variant(&too_few).unwrap_err().kind, GenErrorKind::PlaceholderMismatch);
    let by_label = load_variant_exec(&positional("P", 1, &["\"{name}\""])).unwrap();
    assert_eq!(resolve_variant(&by_label).unwrap_err().kind, GenErrorKind::PlaceholderMismatch);
}

#[test]
fn template_pieces_bind_fields() {
    let v = load_variant_exec(&positional("HTTPSProxyAuthenticator", 2, &["\"X {}:{}\""])).unwrap();
    let st = resolve_variant(&v).unwrap();
    match &st {
        Strategy::Template(pieces) => {
            let slots: Vec<usize> = pieces
                .iter()
                .filter_map(|p| match p {
                    Piece::Slot(k) => Some(*k),
                    Piece::Text(_) => None,
                })
                .collect();
            assert_eq!(slots, vec![0, 1]);
        }
        other => panic!("{:?}", other),
    }
    assert_eq!(render(&st, &strings(&["user", "pass"])), strings(&["X", "user:pass"]));
}

#[test]
fn split_at_first_space_only() {
    assert_eq!(split_first_space_args("a b c"), strings(&["a", "b c"]));
    assert_eq!(split_first_space_args("abc"), strings(&["abc"]));
    assert_eq!(split_first_space_args(""), strings(&[""]));
    assert_eq!(split_first_space_args(" lead"), strings(&["", "lead"]));
}

#[test]
fn assembler_quotes_only_two_or_more_tokens() {
    assert_eq!(cli_join(&vec![]), "");
    assert_eq!(cli_join(&strings(&["one"])), "one");
    assert_eq!(cli_join(&strings(&["a", "b"])), "a \"b\"");
    assert_eq!(cli_join(&strings(&["a", "b", "c"])), "a \"b c\"");
}

#[test]
fn every_declaration_resolves() {
    let flags = load_schema_exec(&TorFlag::schema()).unwrap();
    assert_eq!(flags.len(), libtor::flags::FLAG_COUNT);
    for v in &flags {
        assert!(resolve_variant(v).is_ok(), "{}", v.name);
    }
    let subs = load_schema_exec(&TorSubcommand::schema()).unwrap();
    assert_eq!(subs.len(), 6);
    for v in &subs {
        assert!(resolve_variant(v).is_ok(), "{}", v.name);
    }
}

#[test]
fn schema_written_back_loads_the_same() {
    let flags = load_schema_exec(&TorFlag::schema()).unwrap();
    let again: Vec<AnnotatedVariant> = flags.iter().map(annotated).collect();
    let reloaded = load_schema_exec(&again).unwrap();
    assert_eq!(reloaded.len(), flags.len());
    for (a, b) in flags.iter().zip(reloaded.iter()) {
        assert_eq!(a.name, b.name);
        assert_eq!(format!("{:?}", resolve_variant(a)), format!("{:?}", resolve_variant(b)));
        assert_eq!(format!("{:?}", a), format!("{:?}", b));
    }
    assert_eq!(directive_text(&Directive::Rename("A \"b\"".to_string())), "rename = \"A \\\"b\\\"\"");
}

#[test]
fn examples_become_numbered_tests() {
    let flags = load_schema_exec(&TorFlag::schema()).unwrap();
    let cases = compile_tests(&flags);
    let names: Vec<&str> = cases.iter().map(|c| c.name.as_str()).collect();
    assert_eq!(
        names,
        vec![
            "TEST_ConfigFile_0",
            "TEST_BandwidthRate_0",
            "TEST_DisableNetwork_0",
            "TEST_ControlPortAddress_0",
            "TEST_ControlPortAddress_1",
            "TEST_HTTPSProxyAuthenticator_0",
            "TEST_Log_0",
            "TEST_LogTo_0",
            "TEST_LogTo_1",
            "TEST_LogExpanded_0",
        ]
    );
    assert_eq!(cases[0].expected, "-f \"filename\"");
    assert_eq!(cases[0].args.as_deref(), Some("(\"filename\".into())"));
    let source = generate_test(&cases[0], "TorFlag");
    assert_eq!(
        source,
        "#[test]\nfn TEST_ConfigFile_0() {\n    let v = TorFlag::ConfigFile(\"filename\".into());\n    assert_eq!(v.expand_cli(), \"-f \\\"filename\\\"\");\n}\n"
    );
}

#[test]
fn pipeline_generates_strategies_and_tests() {
    let generated = derive_helper_attr(&TorFlag::schema()).unwrap();
    assert_eq!(generated.strategies.len(), libtor::flags::FLAG_COUNT);
    assert_eq!(generated.tests.len(), 10);
    assert!(matches!(generated.strategies[0], Strategy::Template(_)));
    assert!(matches!(generated.strategies[2], Strategy::DefaultPositional(_, _)));

    let bad_syntax = vec![positional("A", 0, &[]), positional("B", 1, &["rename 5"])];
    match derive_helper_attr(&bad_syntax) {
        Err(GenerationError::Syntax(e)) => {
            assert_eq!(e.variant, "B");
            assert_eq!(e.kind, SyntaxErrorKind::MalformedPair);
        }
        other => panic!("{:?}", other),
    }
    let unresolved = vec![
        positional("A", 0, &[]),
        AnnotatedVariant { name: "N".to_string(), shape: Shape::Named, fields: vec![], annotations: vec![] },
    ];
    match derive_helper_attr(&unresolved) {
        Err(GenerationError::Resolution(e)) => {
            assert_eq!(e.variant, "N");
            assert_eq!(e.kind, GenErrorKind::MissingTemplate);
        }
        other => panic!("{:?}", other),
    }
}
