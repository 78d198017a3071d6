use hermitfile::directive::Directive;
use hermitfile::error::{CompileError, MandatoryField};
use hermitfile::frontend::{compile_statements, parse_hermitfile};
use hermitfile::statement::{choose_text, interpret, Piece, Statement};
use hermitfile::syntax::{parse, tokenize};

fn list(items: &[&str]) -> Vec<String> {
    items.iter().map(|s| s.to_string()).collect()
}

fn piece(s: &str) -> Piece {
    Piece::Text(s.to_string())
}

#[test]
fn tokenizes_every_directive_keyword() {
    let text = "# a module\nFROM mod.wasm\nLINK [\"https://h/dep.wasm\"]\nMAP ['~/.wasm/etc:/etc']\nNET [\"*.example.org\"]\nENV KEY=value\nENV_PWD_IS_HOST_CWD\nENV_EXE_NAME_IS_HOST_EXE_NAME\nENTRYPOINT count_vowels one two\n";
    let statements = tokenize(text).unwrap();
    assert_eq!(
        statements,
        vec![
            Statement::Source("mod.wasm".to_string()),
            Statement::Other("LINK".to_string(), " [\"https://h/dep.wasm\"]".to_string()),
            Statement::Other("MAP".to_string(), " ['~/.wasm/etc:/etc']".to_string()),
            Statement::Other("NET".to_string(), " [\"*.example.org\"]".to_string()),
            Statement::Environment(vec![("KEY".to_string(), vec![piece("value")])]),
            Statement::Other("ENV".to_string(), "_PWD_IS_HOST_CWD".to_string()),
            Statement::Other("ENV".to_string(), "_EXE_NAME_IS_HOST_EXE_NAME".to_string()),
            Statement::EntryPoint(Some(vec![piece("count_vowels one two")])),
        ]
    );
}

#[test]
fn parses_every_directive_keyword() {
    let text = "# a module\nFROM mod.wasm\nLINK [\"https://h/dep.wasm\"]\nMAP ['~/.wasm/etc:/etc']\nNET [\"*.example.org\"]\nENV KEY=value\nENV_PWD_IS_HOST_CWD\nENV_EXE_NAME_IS_HOST_EXE_NAME\nENTRYPOINT count_vowels one two\n";
    assert_eq!(
        parse(text),
        Ok(vec![
            Directive::Source("mod.wasm".to_string()),
            Directive::Dependencies(list(&["https://h/dep.wasm"])),
            Directive::Mappings(list(&["~/.wasm/etc:/etc"])),
            Directive::NetworkAllow(list(&["*.example.org"])),
            Directive::EnvAssign("KEY".to_string(), "value".to_string()),
            Directive::InheritWorkingDirectory,
            Directive::InheritProcessName,
            Directive::EntryCall("count_vowels".to_string(), list(&["one", "two"])),
        ])
    );
}

#[test]
fn malformed_text_is_a_syntax_error() {
    assert_eq!(parse("FROM"), Err(CompileError::SyntaxError));
    assert_eq!(tokenize("FROM"), None);
    assert_eq!(parse_hermitfile("FROM", "Hermitfile"), Err(CompileError::SyntaxError));
}

#[test]
fn malformed_array_is_a_syntax_error() {
    assert_eq!(parse("FROM m.wasm\nMAP ['a:b'"), Err(CompileError::SyntaxError));
    assert_eq!(parse("FROM m.wasm\nNET nothing"), Err(CompileError::SyntaxError));
    assert_eq!(parse("FROM m.wasm\nLINK ['a' 'b']"), Err(CompileError::SyntaxError));
}

#[test]
fn flag_with_operand_is_a_syntax_error() {
    assert_eq!(
        parse("FROM m.wasm\nENV_PWD_IS_HOST_CWD yes"),
        Err(CompileError::SyntaxError)
    );
}

#[test]
fn unknown_keywords_are_ignored() {
    assert_eq!(
        parse("FROM m.wasm\nEXPOSE 80\nRUN echo hi\nWORKDIR /x\n"),
        Ok(vec![Directive::Source("m.wasm".to_string())])
    );
}

#[test]
fn env_forms_assign_in_order() {
    assert_eq!(
        parse("ENV A=1 B=\"two words\"\nENV C three\n"),
        Ok(vec![
            Directive::EnvAssign("A".to_string(), "1".to_string()),
            Directive::EnvAssign("B".to_string(), "two words".to_string()),
            Directive::EnvAssign("C".to_string(), "three".to_string()),
        ])
    );
}

#[test]
fn entrypoint_in_array_form_names_no_call() {
    assert_eq!(parse("ENTRYPOINT [\"f\", \"x\"]"), Ok(Vec::new()));
}

#[test]
fn empty_text_has_no_directive() {
    assert_eq!(parse(""), Ok(Vec::new()));
    assert_eq!(
        parse_hermitfile("", "Hermitfile"),
        Err(CompileError::MissingMandatoryField(MandatoryField::Source))
    );
}

#[test]
fn compiles_the_text_of_a_manifest() {
    let text = "FROM mod.wasm\nMAP ['~/.wasm/etc:/etc']\nENV_PWD_IS_HOST_CWD\nENTRYPOINT count_vowels\n";
    let manifest = parse_hermitfile(text, "/work/project/Hermitfile").unwrap();
    assert_eq!(manifest.source_path, "/work/project/mod.wasm");
    assert_eq!(manifest.mappings, vec![("~/.wasm/etc".to_string(), "/etc".to_string())]);
    assert!(manifest.inherit_cwd);
    assert!(!manifest.inherit_process_name);
    assert_eq!(manifest.entry_call, "count_vowels");
    assert!(manifest.entry_args.is_empty());
    assert!(manifest.env.is_empty());
    assert!(manifest.dependencies.is_empty());
    assert!(manifest.network_allow.is_empty());
}

#[test]
fn absent_from_is_refused() {
    assert_eq!(
        parse_hermitfile("ENV A=1\nENTRYPOINT f\n", "Hermitfile"),
        Err(CompileError::MissingMandatoryField(MandatoryField::Source))
    );
}

#[test]
fn manifest_without_location_is_refused() {
    assert_eq!(
        parse_hermitfile("FROM mod.wasm\n", "/"),
        Err(CompileError::InvalidManifestLocation)
    );
    assert_eq!(
        parse_hermitfile("ENV A=1\n", "/"),
        Err(CompileError::MissingMandatoryField(MandatoryField::Source))
    );
}

#[test]
fn duplicate_env_in_text_keeps_last_value() {
    let manifest = parse_hermitfile("FROM m.wasm\nENV KEY=v1\nENV KEY=v2\n", "Hermitfile").unwrap();
    assert_eq!(manifest.env, list(&["KEY=v2"]));
}

#[test]
fn same_text_compiles_to_same_manifest() {
    let text = "FROM m.wasm\nENV B=2\nENV A=1\nNET ['a', 'b']\n";
    assert_eq!(parse_hermitfile(text, "x/Hermitfile"), parse_hermitfile(text, "x/Hermitfile"));
}

#[test]
fn statements_compile_without_the_parser() {
    let statements = Some(vec![
        Statement::Source("m.wasm".to_string()),
        Statement::Other("MAP".to_string(), " [ 'a:b' , \"c:d\", ]  ".to_string()),
        Statement::Other("ENV".to_string(), "_EXE_NAME_IS_HOST_EXE_NAME  ".to_string()),
        Statement::Environment(vec![
            ("A".to_string(), vec![piece("1"), Piece::Comment, piece("2")]),
            ("B".to_string(), vec![Piece::Comment, piece("x")]),
            ("C".to_string(), Vec::new()),
        ]),
        Statement::EntryPoint(Some(vec![piece("  main\targ  "), piece("more")])),
        Statement::Unsupported,
    ]);
    let manifest = compile_statements(&statements, "dir/Hermitfile").unwrap();
    assert_eq!(manifest.source_path, "dir/m.wasm");
    assert_eq!(
        manifest.mappings,
        vec![("a".to_string(), "b".to_string()), ("c".to_string(), "d".to_string())]
    );
    assert!(manifest.inherit_process_name);
    assert_eq!(manifest.env, list(&["A=1"]));
    assert_eq!(manifest.entry_call, "main");
    assert_eq!(manifest.entry_args, list(&["arg"]));
    assert_eq!(compile_statements(&None, "dir/Hermitfile"), Err(CompileError::SyntaxError));
}

#[test]
fn interprets_statements() {
    assert_eq!(
        interpret(&vec![Statement::Other("MAP".to_string(), " []".to_string())]),
        Ok(vec![Directive::Mappings(Vec::new())])
    );
    assert_eq!(
        interpret(&vec![Statement::Other("map".to_string(), " []".to_string())]),
        Ok(Vec::new())
    );
    assert_eq!(
        interpret(&vec![Statement::Other("MAP".to_string(), "[]".to_string())]),
        Ok(Vec::new())
    );
    assert_eq!(
        interpret(&vec![Statement::EntryPoint(Some(vec![piece("   ")]))]),
        Ok(Vec::new())
    );
    assert_eq!(interpret(&vec![Statement::EntryPoint(None)]), Ok(Vec::new()));
    assert_eq!(
        interpret(&vec![Statement::EntryPoint(Some(vec![Piece::Comment, piece("f")]))]),
        Ok(Vec::new())
    );
    assert_eq!(
        interpret(&vec![Statement::Other("LINK".to_string(), " ['a', ,]".to_string())]),
        Err(CompileError::SyntaxError)
    );
}

#[test]
fn first_piece_of_a_value_counts() {
    assert_eq!(choose_text(&vec![piece("a"), piece("b")]), Some("a".to_string()));
    assert_eq!(choose_text(&vec![Piece::Comment, piece("b")]), None);
    assert_eq!(choose_text(&Vec::new()), None);
}

#[test]
fn values_over_several_lines_are_read_in_pieces() {
    let statements = tokenize("ENTRYPOINT run \\\n  # note\n  fast\nENV A one \\\n two\n").unwrap();
    assert_eq!(
        statements,
        vec![
            Statement::EntryPoint(Some(vec![piece("run "), Piece::Comment, piece("  fast")])),
            Statement::Environment(vec![("A".to_string(), vec![piece("one "), piece(" two")])]),
        ]
    );
}
