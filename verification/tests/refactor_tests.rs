use ember::analyzer::{
    CodeAnalyzer, CodeSmell, CodeSmellType, CodeSymbol, ComplexityMetrics, FileAnalysis, Language,
    Severity, SymbolKind, Visibility,
};
use ember::refactor::{
    Confidence, RefactoringConfig, RefactoringEngine, RefactoringKind, TestImpact,
};

#[test]
fn test_naming_conventions() {
    let engine = RefactoringEngine::new();

    assert!(engine.is_snake_case("my_function"));
    assert!(!engine.is_snake_case("myFunction"));

    assert!(engine.is_camel_case("myFunction"));
    assert!(!engine.is_camel_case("MyFunction"));

    assert!(engine.is_pascal_case("MyClass"));
    assert!(!engine.is_pascal_case("myClass"));

    assert!(engine.is_screaming_snake_case("MY_CONSTANT"));
    assert!(!engine.is_screaming_snake_case("my_constant"));
}

#[test]
fn refactor_test_case_conversion() {
    let engine = RefactoringEngine::new();

    assert_eq!(engine.to_snake_case("myFunction"), "my_function");
    assert_eq!(engine.to_camel_case("my_function"), "myFunction");
    assert_eq!(engine.to_pascal_case("my_function"), "MyFunction");
    assert_eq!(engine.to_screaming_snake_case("myFunction"), "MY_FUNCTION");
}

#[test]
fn test_duplicate_detection() {
    let engine = RefactoringEngine::new();
    let lines = vec![
        "fn a() {",
        "    let x = 1;",
        "    let y = 2;",
        "    let z = x + y;",
        "    println!(\"{}\", z);",
        "}",
        "",
        "fn b() {",
        "    let x = 1;",
        "    let y = 2;",
        "    let z = x + y;",
        "    println!(\"{}\", z);",
        "}",
    ];

    let duplicates = engine.find_duplicates(&lines);
    assert!(duplicates.is_some());
}

fn empty_analysis(path: &str, language: Language) -> FileAnalysis {
    FileAnalysis {
        path: String::from(path),
        language,
        metrics: ComplexityMetrics::default(),
        symbols: vec![],
        smells: vec![],
        imports: vec![],
        dependencies: vec![],
        analyzed_at: 0,
    }
}

#[test]
fn test_refactoring_engine() {
    let engine = RefactoringEngine::new();
    assert!(engine.suggest_refactorings(&empty_analysis("test.rs", Language::Rust), "").is_empty() || true);
}

#[test]
fn duplicate_ranges_are_exact() {
    let engine = RefactoringEngine::new();
    let lines = vec![
        "fn a() {",
        "    let x = 1;",
        "    let y = 2;",
        "    let z = x + y;",
        "    println!(\"{}\", z);",
        "}",
        "",
        "fn b() {",
        "    let x = 1;",
        "    let y = 2;",
        "    let z = x + y;",
        "    println!(\"{}\", z);",
        "}",
    ];
    // Lines 2-6 and 9-13 agree once trimmed.
    let d = engine.find_duplicates(&lines).unwrap();
    assert_eq!(d, vec![(2, 6, 9, 13)]);
    assert!(engine.find_duplicates(&["a", "b"]).is_none());
}

#[test]
fn case_conversion_edges() {
    let engine = RefactoringEngine::new();
    assert_eq!(engine.to_snake_case("HTTPServer"), "h_t_t_p_server");
    assert_eq!(engine.to_snake_case(""), "");
    assert_eq!(engine.to_camel_case("_leading"), "Leading");
    assert_eq!(engine.to_camel_case("Already"), "already");
    assert_eq!(engine.to_pascal_case(""), "");
    assert!(!engine.is_camel_case(""));
    assert!(engine.is_snake_case(""));
    assert!(engine.is_screaming_snake_case("A1_B"));
}

#[test]
fn generated_text() {
    let engine = RefactoringEngine::new();
    assert_eq!(
        engine.generate_constant_replacement("x = foo 42 bar", Language::Rust),
        "const MEANINGFUL_NAME: i32 = 42;\n// Then use MEANINGFUL_NAME instead"
    );
    assert_eq!(
        engine.generate_constant_replacement("no numbers here", Language::Go),
        "// Define constant for 42"
    );
    assert_eq!(
        engine.generate_constant_replacement("y = -7;", Language::Python),
        "MEANINGFUL_NAME = 42\n# Then use MEANINGFUL_NAME instead"
    );
    assert_eq!(
        engine.generate_constant_replacement("y = -7", Language::Python),
        "MEANINGFUL_NAME = -7\n# Then use MEANINGFUL_NAME instead"
    );
    assert_eq!(
        engine.generate_documentation("fn f() {}", Language::Go),
        "// Add documentation\nfn f() {}"
    );
    assert!(engine
        .generate_documentation("def f(): pass", Language::Python)
        .starts_with("def function_name(params):\n\"\"\"Brief description.\n\nArgs:\nparam:"));
    assert_eq!(
        engine.generate_async_version("fn read() { std::fs::read(p) }", Language::Rust),
        "async fn read() { tokio::fs::read(p) }"
    );
    assert_eq!(
        engine.generate_async_version("const f = () => 1", Language::JavaScript),
        "async const f = () => 1"
    );
    assert_eq!(
        engine.generate_async_version("def f(): pass", Language::Python),
        "async def f(): pass"
    );
    assert!(engine.could_be_async("let r = fetch(url)", Language::TypeScript));
    assert!(!engine.could_be_async("let r = 1", Language::TypeScript));
    assert_eq!(
        engine.convert_to_functional("for x in v { out.push(x) }", Language::Rust),
        Some(String::from(
            "// Consider: collection.iter().map(|item| transform(item)).collect()"
        ))
    );
    assert_eq!(engine.convert_to_functional("for x in v {}", Language::Rust), None);
}

#[test]
fn loop_bounds_and_detection() {
    let engine = RefactoringEngine::new();
    let ls: Vec<Vec<char>> = ["for x in v {", "  if x {", "  }", "}", "tail"]
        .iter()
        .map(|l| l.chars().collect())
        .collect();
    assert!(engine.is_imperative_loop(&ls[0], Language::Rust));
    assert!(!engine.is_imperative_loop(&ls[1], Language::Rust));
    assert_eq!(engine.find_loop_bounds(&ls, 0), (0, 3));
    assert_eq!(engine.find_loop_bounds(&ls, 4), (4, 4));
    assert_eq!(engine.get_code_range(&ls, 2, 3), "  if x {\n  }");
    assert_eq!(engine.get_code_range(&ls, 0, 99), "for x in v {\n  if x {\n  }\n}\ntail");
}

fn symbol(name: &str, kind: SymbolKind, vis: Visibility) -> CodeSymbol {
    CodeSymbol {
        name: String::from(name),
        kind,
        qualified_name: String::from(name),
        documentation: None,
        start_line: 1,
        end_line: 1,
        visibility: vis,
        metrics: None,
        children: vec![],
        signature: None,
    }
}

#[test]
fn naming_suggestions() {
    let engine = RefactoringEngine::new();
    let s = engine
        .check_naming_convention(&symbol("doThing", SymbolKind::Function, Visibility::Public), Language::Rust)
        .unwrap();
    assert_eq!(s.kind, RefactoringKind::Rename);
    assert_eq!(s.confidence, Confidence::High);
    assert_eq!(s.description, "Rename to 'do_thing'");
    assert_eq!(s.suggested_code, "do_thing");
    assert_eq!(s.breaking_changes.len(), 1);
    assert_eq!(s.impact.test_impact, TestImpact::MinorUpdates);
    assert!(engine
        .check_naming_convention(&symbol("do_thing", SymbolKind::Function, Visibility::Private), Language::Rust)
        .is_none());
    let c = engine
        .check_naming_convention(&symbol("my_class", SymbolKind::Class, Visibility::Private), Language::Python)
        .unwrap();
    assert_eq!(c.description, "Rename to 'MyClass'");
    assert!(c.breaking_changes.is_empty());
    assert!(engine
        .check_naming_convention(&symbol("_private", SymbolKind::Function, Visibility::Private), Language::Python)
        .is_none());
}

#[test]
fn suggestions_are_sorted_and_truncated() {
    let analyzer = CodeAnalyzer::new();
    let code = "pub fn doThing() {\n    foo(42);\n    foo(77);\n}\n";
    let analysis = analyzer
        .analyze_content(String::from("a.rs"), code, Language::Rust)
        .unwrap();
    let engine = RefactoringEngine::new();
    let s = engine.suggest_refactorings(&analysis, code);
    assert!(!s.is_empty());
    assert!(s.len() <= 10);
    for w in s.windows(2) {
        assert!(
            w[0].confidence > w[1].confidence
                || (w[0].confidence == w[1].confidence
                    && w[0].impact.maintainability_improvement >= w[1].impact.maintainability_improvement)
        );
    }
    assert_eq!(s[0].kind, RefactoringKind::ReplaceMagicNumber);
    let mut cfg = RefactoringConfig::default();
    cfg.max_suggestions_per_file = 1;
    let one = RefactoringEngine::with_config(cfg).suggest_refactorings(&analysis, code);
    assert_eq!(one.len(), 1);
}

#[test]
fn smell_suggestion_kinds() {
    let engine = RefactoringEngine::new();
    let ls: Vec<Vec<char>> = ["pub fn g() {", "}"].iter().map(|l| l.chars().collect()).collect();
    let smell = CodeSmell {
        smell_type: CodeSmellType::MissingDocumentation,
        severity: Severity::Info,
        message: String::from("Public function 'g' lacks documentation"),
        file: String::from("a.rs"),
        line: 1,
        column: 1,
        end_line: 1,
        end_column: 1,
        suggestion: None,
        snippet: None,
    };
    let s = engine.smell_to_refactoring(&smell, &ls, Language::Go).unwrap();
    assert_eq!(s.kind, RefactoringKind::AddTypeAnnotations);
    assert_eq!(s.original_code, "pub fn g() {");
    assert_eq!(s.suggested_code, "// Add documentation\npub fn g() {");
    let mut todo = smell.clone();
    todo.smell_type = CodeSmellType::CommentedCode;
    assert!(engine.smell_to_refactoring(&todo, &ls, Language::Go).is_none());
}

#[test]
fn unused_imports_are_listed() {
    let analyzer = CodeAnalyzer::new();
    let code = "from os.path import join, exists\nimport sys\nprint(exists('x'))\n";
    let analysis = analyzer
        .analyze_content(String::from("a.py"), code, Language::Python)
        .unwrap();
    let engine = RefactoringEngine::new();
    let ls: Vec<Vec<char>> = code.lines().map(|l| l.chars().collect()).collect();
    let unused = engine.find_unused_imports(&ls, &analysis);
    // `join` (imported as a module by the first pattern) and `sys` appear once.
    assert!(unused.contains(&String::from("sys (line 2)")));
    assert!(!unused.iter().any(|u| u.starts_with("os.path")));
}

#[test]
fn snake_case_undoes_camel_case() {
    let engine = RefactoringEngine::new();
    for s in ["my_function", "get_user_name", "x", "a_b_c"] {
        assert_eq!(engine.to_snake_case(&engine.to_camel_case(s)), s);
    }
}
