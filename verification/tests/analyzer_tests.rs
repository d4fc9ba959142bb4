use ember::analyzer::{
    AnalyzerConfig, CodeAnalyzer, CodeSmellType, ComplexityMetrics, ComplexityRating, Language,
    Severity, Visibility,
};

#[test]
fn test_language_detection() {
    assert_eq!(Language::from_extension("rs"), Language::Rust);
    assert_eq!(Language::from_extension("py"), Language::Python);
    assert_eq!(Language::from_extension("js"), Language::JavaScript);
    assert_eq!(Language::from_extension("ts"), Language::TypeScript);
    assert_eq!(Language::from_extension("go"), Language::Go);
    assert_eq!(Language::from_extension("java"), Language::Java);
    assert_eq!(Language::from_extension("txt"), Language::Unknown);
}

#[test]
fn test_complexity_rating() {
    let mut metrics = ComplexityMetrics::default();

    metrics.cyclomatic = 5;
    assert_eq!(metrics.rating(), ComplexityRating::Low);

    metrics.cyclomatic = 15;
    assert_eq!(metrics.rating(), ComplexityRating::Moderate);

    metrics.cyclomatic = 30;
    assert_eq!(metrics.rating(), ComplexityRating::High);

    metrics.cyclomatic = 60;
    assert_eq!(metrics.rating(), ComplexityRating::VeryHigh);
}

#[test]
fn test_rust_analysis() {
    let analyzer = CodeAnalyzer::new();
    let code = r#"
/// A simple function
pub fn add(a: i32, b: i32) -> i32 {
    a + b
}

fn private_fn() {
    if true {
        println!("nested");
    }
}
"#;

    let result = analyzer
        .analyze_content(String::from("test.rs"), code, Language::Rust)
        .unwrap();

    assert_eq!(result.language, Language::Rust);
    assert!(result.symbols.len() >= 2);
    assert!(result.metrics.sloc > 0);
}

#[test]
fn test_python_analysis() {
    let analyzer = CodeAnalyzer::new();
    let code = r#"
def hello(name):
    """Say hello to someone."""
    print(f"Hello, {name}!")

async def fetch_data():
    pass
"#;

    let result = analyzer
        .analyze_content(String::from("test.py"), code, Language::Python)
        .unwrap();

    assert_eq!(result.language, Language::Python);
    assert!(!result.symbols.is_empty());
}

#[test]
fn test_analyze_rust_code() {
    let analyzer = CodeAnalyzer::new();
    let code = r#"
pub fn add(a: i32, b: i32) -> i32 {
    a + b
}
"#;

    let result = analyzer
        .analyze_content(String::from("test.rs"), code, Language::Rust)
        .unwrap();

    assert_eq!(result.language, Language::Rust);
    assert!(!result.symbols.is_empty());
}

#[test]
fn extensions_match_detection() {
    for lang in [
        Language::Rust,
        Language::Python,
        Language::JavaScript,
        Language::TypeScript,
        Language::Go,
        Language::Java,
    ] {
        assert_eq!(Language::from_extension(lang.extensions()[0]), lang);
    }
    assert_eq!(Language::from_extension("pyi"), Language::Python);
    assert_eq!(Language::Python.extensions(), vec!["py", "pyi"]);
    assert!(Language::Unknown.extensions().is_empty());
    assert_eq!(Language::from_extension("RS"), Language::Rust);
    assert_eq!(Language::from_extension("tsx"), Language::TypeScript);
}

#[test]
fn rating_boundaries() {
    let mut m = ComplexityMetrics::default();
    m.cyclomatic = 10;
    assert_eq!(m.rating(), ComplexityRating::Low);
    m.cyclomatic = 11;
    assert_eq!(m.rating(), ComplexityRating::Moderate);
    m.cyclomatic = 20;
    assert_eq!(m.rating(), ComplexityRating::Moderate);
    m.cyclomatic = 50;
    assert_eq!(m.rating(), ComplexityRating::High);
    m.cyclomatic = 51;
    assert_eq!(m.rating(), ComplexityRating::VeryHigh);
}

#[test]
fn line_metrics_and_complexity_exact() {
    let analyzer = CodeAnalyzer::new();
    let code = "// header\n\nfn f(x: i32) -> i32 {\n    if x > 0 && x < 10 {\n        1\n    } else {\n        0\n    }\n}\n";
    let r = analyzer
        .analyze_content(String::from("a.rs"), code, Language::Rust)
        .unwrap();
    assert_eq!(r.metrics.loc, 9);
    assert_eq!(r.metrics.blank_lines, 1);
    assert_eq!(r.metrics.comment_lines, 1);
    assert_eq!(r.metrics.sloc, 7);
    // one plus one `if` and one `&&`
    assert_eq!(r.metrics.cyclomatic, 3);
    assert_eq!(r.metrics.max_nesting, 2);
    assert_eq!(r.symbols.len(), 1);
    assert_eq!(r.symbols[0].name, "f");
    assert_eq!(r.symbols[0].start_line, 3);
    assert_eq!(r.symbols[0].end_line, 9);
    assert_eq!(r.symbols[0].visibility, Visibility::Private);
    assert_eq!(r.symbols[0].documentation, None);
    assert!(r.dependencies.is_empty());
    assert_eq!(r.path, "a.rs");
}

#[test]
fn rust_imports_are_extracted() {
    let analyzer = CodeAnalyzer::new();
    let code = "use std::collections::{HashMap, HashSet};\nuse crate::foo::*;\n";
    let r = analyzer
        .analyze_content(String::from("a.rs"), code, Language::Rust)
        .unwrap();
    assert_eq!(r.imports.len(), 3);
    assert_eq!(r.imports[0].line, 1);
    assert_eq!(r.imports[0].module, "std::collections::");
    assert!(!r.imports[0].is_wildcard);
    assert_eq!(r.imports[2].line, 2);
    assert_eq!(r.imports[2].module, "crate::foo");
    assert!(r.imports[2].is_wildcard);
}

#[test]
fn python_import_items_are_split_and_trimmed() {
    let analyzer = CodeAnalyzer::new();
    let code = "from os.path import join, exists\n";
    let r = analyzer
        .analyze_content(String::from("a.py"), code, Language::Python)
        .unwrap();
    assert_eq!(r.imports.len(), 2);
    assert_eq!(r.imports[1].module, "os.path");
    assert_eq!(
        r.imports[1].items,
        vec![String::from("join"), String::from("exists")]
    );
}

#[test]
fn todo_and_magic_number_smells() {
    let analyzer = CodeAnalyzer::new();
    let code = "fn f() {\n    foo(42);\n    // TODO: fix\n}\n";
    let r = analyzer
        .analyze_content(String::from("a.rs"), code, Language::Rust)
        .unwrap();
    let magic: Vec<_> = r
        .smells
        .iter()
        .filter(|s| s.smell_type == CodeSmellType::MagicNumbers)
        .collect();
    assert_eq!(magic.len(), 1);
    assert_eq!(magic[0].line, 2);
    assert_eq!(magic[0].column, 9);
    assert_eq!(magic[0].severity, Severity::Info);
    assert_eq!(magic[0].message, "Magic number 42 found");
    assert!(r
        .smells
        .iter()
        .any(|s| s.smell_type == CodeSmellType::CommentedCode && s.line == 3));
}

#[test]
fn undocumented_public_function_smell() {
    let analyzer = CodeAnalyzer::new();
    let code = "pub fn g() {\n}\n";
    let r = analyzer
        .analyze_content(String::from("a.rs"), code, Language::Rust)
        .unwrap();
    assert!(r.smells.iter().any(|s| s.smell_type == CodeSmellType::MissingDocumentation
        && s.message == "Public function 'g' lacks documentation"));
}

#[test]
fn default_config_values() {
    let c = AnalyzerConfig::default();
    assert_eq!(c.max_complexity, 15);
    assert_eq!(c.max_function_length, 50);
    assert_eq!(c.max_file_length, 500);
    assert_eq!(c.languages.len(), 6);
    assert_eq!(c.ignore_patterns.len(), 5);
}

#[test]
fn every_listed_extension_is_detected() {
    for lang in [Language::Rust, Language::Python, Language::JavaScript, Language::TypeScript, Language::Go, Language::Java] {
        for e in lang.extensions() {
            assert_eq!(Language::from_extension(e), lang);
            assert_eq!(Language::from_extension(&e.to_uppercase()), lang);
        }
    }
    assert_eq!(Language::from_extension("pyi"), Language::Python);
    assert_eq!(Language::from_extension("JSX"), Language::JavaScript);
    assert_eq!(Language::from_extension("cts"), Language::TypeScript);
    assert_eq!(Language::from_extension("txt"), Language::Unknown);
}
