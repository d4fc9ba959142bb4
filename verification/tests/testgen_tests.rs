use ember::analyzer::{CodeAnalyzer, Language, SymbolKind, Visibility};
use ember::testgen::{TestFramework, TestGenConfig, TestGenerator, TestType};

#[test]
fn test_framework_default() {
    assert_eq!(
        TestFramework::default_for_language(Language::Rust),
        TestFramework::RustBuiltin
    );
    assert_eq!(
        TestFramework::default_for_language(Language::Python),
        TestFramework::Pytest
    );
    assert_eq!(
        TestFramework::default_for_language(Language::TypeScript),
        TestFramework::Vitest
    );
}

#[test]
fn testgen_test_case_conversion() {
    let gen = TestGenerator::new();
    assert_eq!(gen.to_snake_case("myFunction"), "my_function");
    assert_eq!(gen.to_pascal_case("my_function"), "MyFunction");
}

#[test]
fn test_test_generator() {
    let _gen = TestGenerator::new();
    // Basic creation test
    assert!(true);
}

#[test]
fn suffixes_and_pascal_keeps_case() {
    assert_eq!(TestFramework::RustBuiltin.test_file_suffix(), "");
    assert_eq!(TestFramework::Jest.test_file_suffix(), ".test");
    assert_eq!(TestFramework::Unittest.test_file_suffix(), "_test");
    assert_eq!(TestFramework::TestNG.test_file_suffix(), "Test");
    let gen = TestGenerator::new();
    // Only the first letter of each part is raised; the rest is kept.
    assert_eq!(gen.to_pascal_case("test_xY_z"), "TestXYZ");
    assert_eq!(gen.to_pascal_case(""), "");
}

#[test]
fn rust_unit_test_code_exact() {
    let gen = TestGenerator::new();
    let code = gen.generate_test_code(
        "test_add_basic",
        "add",
        Language::Rust,
        TestFramework::RustBuiltin,
        TestType::Unit,
        "42",
        "0",
    );
    assert_eq!(
        code,
        "#[test]\nfn test_add_basic() {\n    // Arrange\n    let input = 42;\n    \n    // Act\n    let result = add(input);\n    \n    // Assert\n    assert_eq!(result, 0);\n}"
    );
    let js = gen.generate_test_code(
        "test_add_basic",
        "add",
        Language::JavaScript,
        TestFramework::Jest,
        TestType::Unit,
        "1",
        "2",
    );
    assert!(js.starts_with("test('test add basic', () => {"));
    let other = gen.generate_test_code(
        "t",
        "f",
        Language::Java,
        TestFramework::TestNG,
        TestType::Unit,
        "1",
        "2",
    );
    assert_eq!(other, "// TODO: Generate test for f with Test framework");
}

#[test]
fn inference_and_edge_cases() {
    let gen = TestGenerator::new();
    assert_eq!(gen.infer_test_inputs("fn f(x: i32) -> bool", Language::Rust), "42");
    assert_eq!(gen.infer_test_inputs("fn f(s: &str)", Language::Rust), "\"test\".to_string()");
    assert_eq!(gen.infer_expected_output("fn f(x: i32) -> bool", Language::Rust), "true");
    assert_eq!(gen.infer_expected_output("def f(x):", Language::Python), "None  # TODO: Add expected value");
    let cases = gen.detect_edge_cases("fn f(v: Vec<i32>) -> i32", Language::Rust);
    let names: Vec<&str> = cases.iter().map(|c| c.0.as_str()).collect();
    assert_eq!(names, vec!["zero", "negative", "empty_collection"]);
    assert_eq!(cases[2].1, "vec![]");
    assert_eq!(cases[0].2, "0");
    assert_eq!(gen.empty_collection_value(Language::Java), "new ArrayList<>()");
    assert_eq!(gen.empty_string_value(Language::Go), "\"\"");
}

#[test]
fn file_paths_and_headers() {
    let gen = TestGenerator::new();
    assert_eq!(
        gen.calculate_test_file_path("src/lib.rs", Language::Rust, TestFramework::RustBuiltin),
        "src/lib_test.rs"
    );
    assert_eq!(
        gen.calculate_test_file_path("pkg/mod.py", Language::Python, TestFramework::Pytest),
        "pkg/test_mod.py"
    );
    assert_eq!(
        gen.calculate_test_file_path("web/app.ts", Language::TypeScript, TestFramework::Vitest),
        "web/app.test.ts"
    );
    assert_eq!(
        gen.generate_file_header(Language::Unknown, "m"),
        "// Tests for m\n"
    );
    assert_eq!(
        gen.generate_imports("pkg/mod.py", Language::Python, TestFramework::Pytest),
        vec![String::from("import pytest"), String::from("from mod import *")]
    );
    assert!(gen.generate_shared_setup(Language::Go, TestFramework::GoTest).is_none());
    assert!(gen.generate_shared_teardown(Language::Python, TestFramework::Pytest).is_none());
}

#[test]
fn generated_suite_for_rust_file() {
    let analyzer = CodeAnalyzer::new();
    let code = "pub fn add_one(x: i32) -> i32 {\n    x + 1\n}\n";
    let analysis = analyzer
        .analyze_content(String::from("src/math.rs"), code, Language::Rust)
        .unwrap();
    let gen = TestGenerator::new();
    let suite = gen.generate_tests(&analysis, code);
    assert_eq!(suite.name, "math");
    assert_eq!(suite.framework, TestFramework::RustBuiltin);
    assert_eq!(suite.test_file, "src/math_test.rs");
    assert_eq!(suite.imports, vec![String::from("use super::*;")]);
    // Only the public symbol is tested: happy path plus zero and negative.
    assert_eq!(suite.tests.len(), 3);
    assert_eq!(suite.tests[0].name, "test_add_one_basic");
    assert_eq!(suite.tests[0].test_type, TestType::Unit);
    assert_eq!(suite.tests[1].name, "test_add_one_zero");
    assert_eq!(suite.tests[2].name, "test_add_one_negative");
    assert!(suite.full_content.starts_with("//! Tests for math\n//!\n"));
    assert!(suite.full_content.contains("mod tests {\n    use super::*;\n\n    #[test]\n"));
    assert!(suite.full_content.ends_with("}\n"));
}

#[test]
fn max_tests_per_function_is_respected() {
    let analyzer = CodeAnalyzer::new();
    let code = "pub fn f(v: Vec<String>) -> Result<i32, String> {\n}\n";
    let analysis = analyzer
        .analyze_content(String::from("a.rs"), code, Language::Rust)
        .unwrap();
    let mut cfg = TestGenConfig::default();
    cfg.max_tests_per_function = 2;
    cfg.min_visibility = Visibility::Private;
    let gen = TestGenerator::with_config(cfg);
    let suite = gen.generate_tests(&analysis, code);
    // Two function symbols match (public and private patterns), two tests each.
    assert_eq!(analysis.symbols.len(), 2);
    assert!(analysis.symbols.iter().all(|s| s.kind == SymbolKind::Function));
    assert_eq!(suite.tests.len(), 4);
    let mut all = TestGenConfig::default();
    all.include_property_tests = true;
    all.max_tests_per_function = 10;
    let suite = TestGenerator::with_config(all).generate_tests(&analysis, code);
    // happy, empty_string, zero, negative (three edge cases), error, property
    assert_eq!(suite.tests.len(), 6);
    assert_eq!(suite.tests[4].test_type, TestType::ErrorHandling);
    assert_eq!(suite.tests[5].tags, vec![String::from("property"), String::from("fuzz")]);
}
