//! Test generation: test code for functions in the idiom of each language
//! and testing framework, and the complete test file around it.

use crate::analyzer::{str_views, Language, SymbolKind, Visibility};
use crate::text::{
    chars_of, contains, extend_chars, extend_str, has_lit, lines, lines_of, replace_all,
    replace_lit, string_from_chars, upper_first, views,
};
use vstd::prelude::*;

verus! {

// ─── Frameworks and kinds of tests ───────────────────────────────────────────

/// Supported testing frameworks.
#[derive(Debug, Clone, Copy, PartialEq, Eq, Structural)]
pub enum TestFramework {
    /// Rust's built-in test harness.
    RustBuiltin,
    /// pytest.
    Pytest,
    /// Python's unittest.
    Unittest,
    /// Jest.
    Jest,
    /// Mocha.
    Mocha,
    /// Vitest.
    Vitest,
    /// Go's testing package.
    GoTest,
    /// JUnit 5.
    JUnit5,
    /// JUnit 4.
    JUnit4,
    /// TestNG.
    TestNG,
}

/// The default framework of a language.
pub open spec fn default_framework(language: Language) -> TestFramework {
    match language {
        Language::Rust => TestFramework::RustBuiltin,
        Language::Python => TestFramework::Pytest,
        Language::JavaScript => TestFramework::Jest,
        Language::TypeScript => TestFramework::Vitest,
        Language::Go => TestFramework::GoTest,
        Language::Java => TestFramework::JUnit5,
        Language::Unknown => TestFramework::RustBuiltin,
    }
}

/// The suffix a framework's test files carry after the file stem.
pub open spec fn file_suffix(f: TestFramework) -> Seq<char> {
    match f {
        TestFramework::RustBuiltin => ""@,
        TestFramework::Pytest | TestFramework::Unittest => "_test"@,
        TestFramework::Jest | TestFramework::Mocha | TestFramework::Vitest => ".test"@,
        TestFramework::GoTest => "_test"@,
        TestFramework::JUnit5 | TestFramework::JUnit4 | TestFramework::TestNG => "Test"@,
    }
}

impl TestFramework {
    /// The default framework for a language.
    pub fn default_for_language(language: Language) -> (r: TestFramework)
        ensures
            r == default_framework(language),
    {
        match language {
            Language::Rust => TestFramework::RustBuiltin,
            Language::Python => TestFramework::Pytest,
            Language::JavaScript => TestFramework::Jest,
            Language::TypeScript => TestFramework::Vitest,
            Language::Go => TestFramework::GoTest,
            Language::Java => TestFramework::JUnit5,
            Language::Unknown => TestFramework::RustBuiltin,
        }
    }

    /// The suffix of this framework's test files.
    pub fn test_file_suffix(&self) -> (r: &'static str)
        ensures
            r@ == file_suffix(*self),
    {
        match self {
            TestFramework::RustBuiltin => "",
            TestFramework::Pytest | TestFramework::Unittest => "_test",
            TestFramework::Jest | TestFramework::Mocha | TestFramework::Vitest => ".test",
            TestFramework::GoTest => "_test",
            TestFramework::JUnit5 | TestFramework::JUnit4 | TestFramework::TestNG => "Test",
        }
    }
}

/// Test type or category.
#[derive(Debug, Clone, Copy, PartialEq, Eq, Structural)]
pub enum TestType {
    /// Basic unit test.
    Unit,
    /// Edge case test.
    EdgeCase,
    /// Error handling test.
    ErrorHandling,
    /// Property-based test.
    Property,
    /// Boundary value test.
    Boundary,
    /// Integration test.
    Integration,
    /// Snapshot test.
    Snapshot,
    /// Performance test.
    Performance,
}

/// A generated test case.
#[derive(Debug, Clone)]
pub struct GeneratedTest {
    /// Test name.
    pub name: String,
    /// Test type.
    pub test_type: TestType,
    /// Test description.
    pub description: String,
    /// The generated test code.
    pub code: String,
    /// Setup code (if needed).
    pub setup: Option<String>,
    /// Teardown code (if needed).
    pub teardown: Option<String>,
    /// Expected assertion count.
    pub assertion_count: u32,
    /// Test tags.
    pub tags: Vec<String>,
    /// Confidence score (0-100).
    pub confidence: u32,
}

/// The model of a generated test.
pub struct TestModel {
    pub name: Seq<char>,
    pub test_type: TestType,
    pub description: Seq<char>,
    pub code: Seq<char>,
    pub setup: Option<Seq<char>>,
    pub teardown: Option<Seq<char>>,
    pub assertion_count: u32,
    pub tags: Seq<Seq<char>>,
    pub confidence: u32,
}

impl GeneratedTest {
    /// The model of this test.
    pub open spec fn model(&self) -> TestModel {
        TestModel {
            name: self.name@,
            test_type: self.test_type,
            description: self.description@,
            code: self.code@,
            setup: crate::analyzer::opt_view(self.setup),
            teardown: crate::analyzer::opt_view(self.teardown),
            assertion_count: self.assertion_count,
            tags: crate::text::string_views(self.tags@),
            confidence: self.confidence,
        }
    }
}

/// Models of a sequence of tests.
pub open spec fn test_models(v: Seq<GeneratedTest>) -> Seq<TestModel> {
    v.map_values(|t: GeneratedTest| t.model())
}

/// The code of each test.
pub open spec fn test_codes(v: Seq<TestModel>) -> Seq<Seq<char>> {
    v.map_values(|t: TestModel| t.code)
}

/// A test suite.
#[derive(Debug, Clone)]
pub struct GeneratedTestSuite {
    /// Suite name (usually the module or file name).
    pub name: String,
    /// Target file being tested.
    pub target_file: String,
    /// Output test file path.
    pub test_file: String,
    /// Testing framework used.
    pub framework: TestFramework,
    /// Language.
    pub language: Language,
    /// Import statements.
    pub imports: Vec<String>,
    /// Test cases.
    pub tests: Vec<GeneratedTest>,
    /// Shared setup code.
    pub shared_setup: Option<String>,
    /// Shared teardown code.
    pub shared_teardown: Option<String>,
    /// Complete generated file content.
    pub full_content: String,
}

/// Configuration for test generation.
#[derive(Debug, Clone)]
pub struct TestGenConfig {
    /// Testing framework to use (the language's default when absent).
    pub framework: Option<TestFramework>,
    /// Generate edge case tests.
    pub include_edge_cases: bool,
    /// Generate error handling tests.
    pub include_error_tests: bool,
    /// Generate property-based tests.
    pub include_property_tests: bool,
    /// Minimum function visibility to test.
    pub min_visibility: Visibility,
    /// Maximum tests per function.
    pub max_tests_per_function: usize,
    /// Include test descriptions.
    pub include_descriptions: bool,
    /// Test output directory (the source's directory when absent).
    pub output_dir: Option<String>,
}

/// The default test generation settings.
pub open spec fn is_default_testgen_config(c: TestGenConfig) -> bool {
    &&& c.framework is None
    &&& c.include_edge_cases
    &&& c.include_error_tests
    &&& !c.include_property_tests
    &&& c.min_visibility == Visibility::Public
    &&& c.max_tests_per_function == 5
    &&& c.include_descriptions
    &&& c.output_dir is None
}

impl Default for TestGenConfig {
    /// Default framework, edge case and error tests, public functions, at most
    /// five tests per function.
    fn default() -> (r: TestGenConfig)
        ensures
            is_default_testgen_config(r),
    {
        TestGenConfig {
            framework: None,
            include_edge_cases: true,
            include_error_tests: true,
            include_property_tests: false,
            min_visibility: Visibility::Public,
            max_tests_per_function: 5,
            include_descriptions: true,
            output_dir: None,
        }
    }
}

/// The test generator.
pub struct TestGenerator {
    config: TestGenConfig,
}

impl TestGenerator {
    /// The generator's configuration.
    pub closed spec fn spec_config(&self) -> TestGenConfig {
        self.config
    }

    /// A generator with the default configuration.
    pub fn new() -> (r: TestGenerator)
        ensures
            is_default_testgen_config(r.spec_config()),
    {
        TestGenerator { config: TestGenConfig::default() }
    }

    /// A generator with the given configuration.
    pub fn with_config(config: TestGenConfig) -> (r: TestGenerator)
        ensures
            r.spec_config() == config,
    {
        TestGenerator { config }
    }
}

impl Default for TestGenerator {
    /// A generator with the default configuration.
    fn default() -> (r: TestGenerator)
        ensures
            is_default_testgen_config(r.spec_config()),
    {
        TestGenerator::new()
    }
}

// ─── Names ───────────────────────────────────────────────────────────────────

/// PascalCase of `s` so far, and whether the next character is to be
/// capitalized: underscores are dropped and capitalize what follows, and so
/// is the first character; the others are kept.
pub open spec fn tg_pascal_state(s: Seq<char>) -> (Seq<char>, bool)
    decreases s.len(),
{
    if s.len() == 0 {
        (seq![], true)
    } else {
        let prev = tg_pascal_state(s.drop_last());
        let c = s.last();
        if c == '_' {
            (prev.0, true)
        } else if prev.1 {
            (prev.0.push(upper_first(c)), false)
        } else {
            (prev.0.push(c), false)
        }
    }
}

/// PascalCase of `s` as test names are written.
pub open spec fn tg_pascal_of(s: Seq<char>) -> Seq<char> {
    tg_pascal_state(s).0
}

impl TestGenerator {
    /// Converts to snake_case.
    pub fn to_snake_case(&self, s: &str) -> (r: String)
        ensures
            r@ == crate::refactor::snake_of(s@),
    {
        let cs = chars_of(s);
        let mut out: Vec<char> = Vec::new();
        let mut i: usize = 0;
        while i < cs.len()
            invariant
                i <= cs.len(),
                cs@ == s@,
                out@ == crate::refactor::snake_of(cs@.take(i as int)),
            decreases cs.len() - i,
        {
            assert(cs@.take(i + 1).drop_last() =~= cs@.take(i as int));
            let c = cs[i];
            if crate::text::char_is_uppercase(c) && i > 0 {
                out.push('_');
            }
            out.push(crate::text::char_lower_first(c));
            assert(out@ =~= crate::refactor::snake_of(cs@.take(i + 1)));
            i += 1;
        }
        assert(cs@.take(cs.len() as int) =~= cs@);
        string_from_chars(&out)
    }

    /// Converts to PascalCase.
    pub fn to_pascal_case(&self, s: &str) -> (r: String)
        ensures
            r@ == tg_pascal_of(s@),
    {
        let cs = chars_of(s);
        let mut out: Vec<char> = Vec::new();
        let mut capitalize_next = true;
        let mut i: usize = 0;
        while i < cs.len()
            invariant
                i <= cs.len(),
                cs@ == s@,
                (out@, capitalize_next) == tg_pascal_state(cs@.take(i as int)),
            decreases cs.len() - i,
        {
            assert(cs@.take(i + 1).drop_last() =~= cs@.take(i as int));
            let c = cs[i];
            if c == '_' {
                capitalize_next = true;
            } else if capitalize_next {
                out.push(crate::text::char_upper_first(c));
                capitalize_next = false;
            } else {
                out.push(c);
            }
            i += 1;
        }
        assert(cs@.take(cs.len() as int) =~= cs@);
        string_from_chars(&out)
    }
}

// ─── Inputs, expectations and edge cases ─────────────────────────────────────

/// A test input guessed from the types the code mentions.
pub open spec fn inputs_for(code: Seq<char>, lang: Language) -> Seq<char> {
    match lang {
        Language::Rust => if contains(code, "&str"@) || contains(code, "String"@) {
            "\"test\".to_string()"@
        } else if contains(code, "i32"@) || contains(code, "i64"@) {
            "42"@
        } else if contains(code, "bool"@) {
            "true"@
        } else if contains(code, "Vec<"@) {
            "vec![]"@
        } else {
            "todo!(\"Add input\")"@
        },
        Language::Python => if contains(code, "str"@) {
            "\"test\""@
        } else if contains(code, "int"@) {
            "42"@
        } else if contains(code, "bool"@) {
            "True"@
        } else if contains(code, "list"@) {
            "[]"@
        } else {
            "None  # TODO: Add input"@
        },
        Language::JavaScript | Language::TypeScript => if contains(code, "string"@) {
            "\"test\""@
        } else if contains(code, "number"@) {
            "42"@
        } else if contains(code, "boolean"@) {
            "true"@
        } else if contains(code, "Array"@) || contains(code, "[]"@) {
            "[]"@
        } else {
            "null // TODO: Add input"@
        },
        _ => "/* TODO: Add input */"@,
    }
}

/// An expected value guessed from the return type the code mentions.
pub open spec fn expected_for(code: Seq<char>, lang: Language) -> Seq<char> {
    match lang {
        Language::Rust => if contains(code, "-> bool"@) {
            "true"@
        } else if contains(code, "-> String"@) || contains(code, "-> &str"@) {
            "\"expected\".to_string()"@
        } else if contains(code, "-> i32"@) || contains(code, "-> i64"@) {
            "0"@
        } else if contains(code, "-> Vec<"@) {
            "vec![]"@
        } else if contains(code, "-> Option<"@) {
            "Some(todo!(\"expected value\"))"@
        } else if contains(code, "-> Result<"@) {
            "Ok(todo!(\"expected value\"))"@
        } else {
            "todo!(\"Add expected value\")"@
        },
        Language::Python => "None  # TODO: Add expected value"@,
        Language::JavaScript | Language::TypeScript => "undefined // TODO: Add expected value"@,
        _ => "/* TODO: Add expected value */"@,
    }
}

/// The empty string literal of a language.
pub open spec fn empty_string_of(lang: Language) -> Seq<char> {
    match lang {
        Language::Rust => "\"\".to_string()"@,
        _ => "\"\""@,
    }
}

/// The empty collection literal of a language.
pub open spec fn empty_collection_of(lang: Language) -> Seq<char> {
    match lang {
        Language::Rust => "vec![]"@,
        Language::Go => "nil"@,
        Language::Java => "new ArrayList<>()"@,
        _ => "[]"@,
    }
}

/// The edge cases the code suggests, as name, input and expected value: an
/// empty string, zero and a negative number, an empty collection.
pub open spec fn edge_cases_of(code: Seq<char>, lang: Language) -> Seq<(Seq<char>, Seq<char>, Seq<char>)> {
    let e = expected_for(code, lang);
    (if contains(code, "str"@) || contains(code, "String"@) {
        seq![("empty_string"@, empty_string_of(lang), e)]
    } else {
        seq![]
    }) + (if contains(code, "i32"@) || contains(code, "i64"@) || contains(code, "int"@) || contains(
        code,
        "number"@,
    ) {
        seq![("zero"@, "0"@, e), ("negative"@, "-1"@, e)]
    } else {
        seq![]
    }) + (if contains(code, "Vec<"@) || contains(code, "list"@) || contains(code, "Array"@) || contains(
        code,
        "[]"@,
    ) {
        seq![("empty_collection"@, empty_collection_of(lang), e)]
    } else {
        seq![]
    })
}

/// Whether `s` writes a negative whole number: a minus sign, then decimal
/// digits, not all of them zero.
pub open spec fn writes_negative(s: Seq<char>) -> bool {
    &&& s.len() >= 2
    &&& s[0] == '-'
    &&& forall|i: int| 1 <= i < s.len() ==> '0' <= #[trigger] s[i] && s[i] <= '9'
    &&& exists|i: int| 1 <= i < s.len() && #[trigger] s[i] != '0'
}

/// Whether `s` writes zero: one or more digits `0`.
pub open spec fn writes_zero(s: Seq<char>) -> bool {
    &&& s.len() >= 1
    &&& forall|i: int| 0 <= i < s.len() ==> #[trigger] s[i] == '0'
}

/// Whether the code mentions an integer type.
pub open spec fn mentions_integer(code: Seq<char>) -> bool {
    contains(code, "i32"@) || contains(code, "i64"@) || contains(code, "int"@) || contains(code, "number"@)
}

/// The edge cases of code that mentions an integer type include one named
/// `zero` and one named `negative`; every case named `negative` feeds a
/// negative number, and every case named `zero` feeds zero.
pub proof fn lemma_edge_case_inputs(code: Seq<char>, lang: Language)
    ensures
        forall|j: int|
            0 <= j < edge_cases_of(code, lang).len() && (#[trigger] edge_cases_of(code, lang)[j]).0
                == "negative"@ ==> writes_negative(edge_cases_of(code, lang)[j].1),
        forall|j: int|
            0 <= j < edge_cases_of(code, lang).len() && (#[trigger] edge_cases_of(code, lang)[j]).0
                == "zero"@ ==> writes_zero(edge_cases_of(code, lang)[j].1),
        mentions_integer(code) ==> exists|j: int|
            0 <= j < edge_cases_of(code, lang).len() && (#[trigger] edge_cases_of(code, lang)[j]).0
                == "negative"@,
        mentions_integer(code) ==> exists|j: int|
            0 <= j < edge_cases_of(code, lang).len() && (#[trigger] edge_cases_of(code, lang)[j]).0
                == "zero"@,
{
    reveal_strlit("negative");
    reveal_strlit("zero");
    reveal_strlit("-1");
    reveal_strlit("0");
    reveal_strlit("empty_string");
    reveal_strlit("empty_collection");
    let e = expected_for(code, lang);
    let a: Seq<(Seq<char>, Seq<char>, Seq<char>)> = if contains(code, "str"@) || contains(code, "String"@) {
        seq![("empty_string"@, empty_string_of(lang), e)]
    } else {
        seq![]
    };
    let b: Seq<(Seq<char>, Seq<char>, Seq<char>)> = if mentions_integer(code) {
        seq![("zero"@, "0"@, e), ("negative"@, "-1"@, e)]
    } else {
        seq![]
    };
    let c: Seq<(Seq<char>, Seq<char>, Seq<char>)> = if contains(code, "Vec<"@) || contains(code, "list"@)
        || contains(code, "Array"@) || contains(code, "[]"@) {
        seq![("empty_collection"@, empty_collection_of(lang), e)]
    } else {
        seq![]
    };
    let cs = edge_cases_of(code, lang);
    assert(cs == a + b + c);
    assert("-1"@[1] != '0');
    assert(writes_negative("-1"@));
    assert(writes_zero("0"@));
    assert("negative"@.len() == 8 && "zero"@.len() == 4 && "empty_string"@.len() == 12
        && "empty_collection"@.len() == 16);
    assert("negative"@ != "zero"@ && "negative"@ != "empty_string"@ && "negative"@ != "empty_collection"@);
    assert("zero"@ != "empty_string"@ && "zero"@ != "empty_collection"@);
    assert forall|j: int| 0 <= j < cs.len() implies ((#[trigger] cs[j]).0 == "negative"@ ==> writes_negative(
        cs[j].1,
    )) && (cs[j].0 == "zero"@ ==> writes_zero(cs[j].1)) by {
        if j < a.len() {
            assert(cs[j] == a[j]);
            assert(a[j].0 == "empty_string"@);
        } else if j < a.len() + b.len() {
            assert(cs[j] == b[j - a.len()]);
            if j - a.len() == 0 {
                assert(b[0].0 == "zero"@ && b[0].1 == "0"@);
            } else {
                assert(b[1].0 == "negative"@ && b[1].1 == "-1"@);
            }
        } else {
            assert(cs[j] == c[j - a.len() - b.len()]);
            assert(c[j - a.len() - b.len()].0 == "empty_collection"@);
        }
    }
    if mentions_integer(code) {
        assert(cs[a.len() as int] == b[0]);
        assert(cs[a.len() as int + 1] == b[1]);
    }
}

/// The views of triples of strings.
pub open spec fn triple_views(v: Seq<(String, String, String)>) -> Seq<(Seq<char>, Seq<char>, Seq<char>)> {
    v.map_values(|t: (String, String, String)| (t.0@, t.1@, t.2@))
}

impl TestGenerator {
    /// A test input guessed from the types the code mentions.
    pub fn infer_test_inputs(&self, func_code: &str, language: Language) -> (r: String)
        ensures
            r@ == inputs_for(func_code@, language),
    {
        let c = chars_of(func_code);
        let s = match language {
            Language::Rust => if has_lit(&c, "&str") || has_lit(&c, "String") {
                "\"test\".to_string()"
            } else if has_lit(&c, "i32") || has_lit(&c, "i64") {
                "42"
            } else if has_lit(&c, "bool") {
                "true"
            } else if has_lit(&c, "Vec<") {
                "vec![]"
            } else {
                "todo!(\"Add input\")"
            },
            Language::Python => if has_lit(&c, "str") {
                "\"test\""
            } else if has_lit(&c, "int") {
                "42"
            } else if has_lit(&c, "bool") {
                "True"
            } else if has_lit(&c, "list") {
                "[]"
            } else {
                "None  # TODO: Add input"
            },
            Language::JavaScript | Language::TypeScript => if has_lit(&c, "string") {
                "\"test\""
            } else if has_lit(&c, "number") {
                "42"
            } else if has_lit(&c, "boolean") {
                "true"
            } else if has_lit(&c, "Array") || has_lit(&c, "[]") {
                "[]"
            } else {
                "null // TODO: Add input"
            },
            _ => "/* TODO: Add input */",
        };
        crate::text::owned(s)
    }

    /// An expected value guessed from the return type the code mentions.
    pub fn infer_expected_output(&self, func_code: &str, language: Language) -> (r: String)
        ensures
            r@ == expected_for(func_code@, language),
    {
        let c = chars_of(func_code);
        let s = match language {
            Language::Rust => if crate::text::has_lit(&c, "-> bool") {
                "true"
            } else if crate::text::has_lit(&c, "-> String") || crate::text::has_lit(&c, "-> &str") {
                "\"expected\".to_string()"
            } else if crate::text::has_lit(&c, "-> i32") || crate::text::has_lit(&c, "-> i64") {
                "0"
            } else if crate::text::has_lit(&c, "-> Vec<") {
                "vec![]"
            } else if crate::text::has_lit(&c, "-> Option<") {
                "Some(todo!(\"expected value\"))"
            } else if crate::text::has_lit(&c, "-> Result<") {
                "Ok(todo!(\"expected value\"))"
            } else {
                "todo!(\"Add expected value\")"
            },
            Language::Python => "None  # TODO: Add expected value",
            Language::JavaScript | Language::TypeScript => "undefined // TODO: Add expected value",
            _ => "/* TODO: Add expected value */",
        };
        crate::text::owned(s)
    }

    /// The empty string literal of a language.
    pub fn empty_string_value(&self, language: Language) -> (r: String)
        ensures
            r@ == empty_string_of(language),
    {
        match language {
            Language::Rust => crate::text::owned("\"\".to_string()"),
            Language::Python => crate::text::owned("\"\""),
            Language::JavaScript | Language::TypeScript => crate::text::owned("\"\""),
            Language::Go => crate::text::owned("\"\""),
            Language::Java => crate::text::owned("\"\""),
            _ => crate::text::owned("\"\""),
        }
    }

    /// The empty collection literal of a language.
    pub fn empty_collection_value(&self, language: Language) -> (r: String)
        ensures
            r@ == empty_collection_of(language),
    {
        match language {
            Language::Rust => crate::text::owned("vec![]"),
            Language::Python => crate::text::owned("[]"),
            Language::JavaScript | Language::TypeScript => crate::text::owned("[]"),
            Language::Go => crate::text::owned("nil"),
            Language::Java => crate::text::owned("new ArrayList<>()"),
            _ => crate::text::owned("[]"),
        }
    }

    /// The edge cases the code suggests, as name, input and expected value.
    pub fn detect_edge_cases(&self, func_code: &str, language: Language) -> (r: Vec<
        (String, String, String),
    >)
        ensures
            triple_views(r@) == edge_cases_of(func_code@, language),
    {
        let c = chars_of(func_code);
        let mut cases: Vec<(String, String, String)> = Vec::new();
        if crate::text::has_lit(&c, "str") || crate::text::has_lit(&c, "String") {
            cases.push(
                (
                    crate::text::owned("empty_string"),
                    self.empty_string_value(language),
                    self.infer_expected_output(func_code, language),
                ),
            );
        }
        let ghost a = triple_views(cases@);
        if crate::text::has_lit(&c, "i32") || crate::text::has_lit(&c, "i64") || crate::text::has_lit(
            &c,
            "int",
        ) || crate::text::has_lit(&c, "number") {
            cases.push(
                (
                    crate::text::owned("zero"),
                    crate::text::owned("0"),
                    self.infer_expected_output(func_code, language),
                ),
            );
            cases.push(
                (
                    crate::text::owned("negative"),
                    crate::text::owned("-1"),
                    self.infer_expected_output(func_code, language),
                ),
            );
        }
        let ghost b = triple_views(cases@);
        if crate::text::has_lit(&c, "Vec<") || crate::text::has_lit(&c, "list") || crate::text::has_lit(
            &c,
            "Array",
        ) || crate::text::has_lit(&c, "[]") {
            cases.push(
                (
                    crate::text::owned("empty_collection"),
                    self.empty_collection_value(language),
                    self.infer_expected_output(func_code, language),
                ),
            );
        }
        assert(triple_views(cases@) =~= edge_cases_of(func_code@, language));
        cases
    }
}

// ─── Templates ───────────────────────────────────────────────────────────────

/// The pieces `p` with the arguments `a` between them: `p[0] + a[0] + p[1] + ...`.
pub open spec fn interleave(p: Seq<Seq<char>>, a: Seq<Seq<char>>) -> Seq<char>
    decreases a.len(),
{
    if a.len() == 0 {
        if p.len() > 0 {
            p[0]
        } else {
            seq![]
        }
    } else {
        interleave(p.take(a.len() as int), a.drop_last()) + a.last() + p[a.len() as int]
    }
}

/// Fills a template: its pieces with the arguments between them.
fn fill(pieces: &[&str], args: &[&str]) -> (r: String)
    requires
        pieces@.len() == args@.len() + 1,
    ensures
        r@ == interleave(str_views(pieces@), str_views(args@)),
{
    let ghost pv = str_views(pieces@);
    let ghost av = str_views(args@);
    let mut out = chars_of(pieces[0]);
    let mut k: usize = 0;
    assert(pv.take(1).take(0) =~= Seq::<Seq<char>>::empty());
    assert(interleave(pv.take(1), av.take(0)) == pv[0]);
    while k < args.len()
        invariant
            pieces@.len() == args@.len() + 1,
            pv == str_views(pieces@),
            av == str_views(args@),
            k <= args.len(),
            out@ == interleave(pv.take(k + 1), av.take(k as int)),
        decreases args.len() - k,
    {
        extend_str(&mut out, args[k]);
        extend_str(&mut out, pieces[k + 1]);
        assert(av.take(k + 1).drop_last() =~= av.take(k as int));
        assert(pv.take(k + 2).take(k + 1) =~= pv.take(k + 1));
        assert(av.take(k + 1).last() == args@[k as int]@);
        assert(pv.take(k + 2)[k + 1] == pieces@[k + 1]@);
        k += 1;
    }
    assert(pv.take(args.len() + 1) =~= pv);
    assert(av.take(args.len() as int) =~= av);
    string_from_chars(&out)
}

/// Piece 0 of the Rust property test.
pub const PROP_RUST_0: &'static str = "#[cfg(test)]\nmod proptest_tests {\n    use super::*;\n    use proptest::prelude::*;\n\n    proptest! {\n        #[test]\n        fn ";

/// Piece 1 of the Rust property test.
pub const PROP_RUST_1: &'static str = "(input in any::<i32>()) {\n            // Property: function should not panic with any valid input\n            let _ = ";

/// Piece 2 of the Rust property test.
pub const PROP_RUST_2: &'static str = "(input);\n        }\n    }\n}";

/// The pieces of the Rust property test, around its placeholders.
pub open spec fn prop_rust_pieces() -> Seq<Seq<char>> {
    seq![PROP_RUST_0@, PROP_RUST_1@, PROP_RUST_2@]
}

/// The pieces of the Rust property test.
fn prop_rust_list() -> (r: Vec<&'static str>)
    ensures
        crate::analyzer::str_views(r@) == prop_rust_pieces(),
        r@.len() == 3,
{
    let r = vec![PROP_RUST_0, PROP_RUST_1, PROP_RUST_2];
    assert(crate::analyzer::str_views(r@) =~= prop_rust_pieces());
    r
}

/// Piece 0 of the Python property test.
pub const PROP_PYTHON_0: &'static str = "from hypothesis import given, strategies as st\n\n@given(st.integers())\ndef ";

/// Piece 1 of the Python property test.
pub const PROP_PYTHON_1: &'static str = "(input_val):\n    \"\"\"Property: function should handle any integer input.\"\"\"\n    result = ";

/// Piece 2 of the Python property test.
pub const PROP_PYTHON_2: &'static str = "(input_val)\n    # Add property assertions here\n    assert result is not None\n";

/// The pieces of the Python property test, around its placeholders.
pub open spec fn prop_python_pieces() -> Seq<Seq<char>> {
    seq![PROP_PYTHON_0@, PROP_PYTHON_1@, PROP_PYTHON_2@]
}

/// The pieces of the Python property test.
fn prop_python_list() -> (r: Vec<&'static str>)
    ensures
        crate::analyzer::str_views(r@) == prop_python_pieces(),
        r@.len() == 3,
{
    let r = vec![PROP_PYTHON_0, PROP_PYTHON_1, PROP_PYTHON_2];
    assert(crate::analyzer::str_views(r@) =~= prop_python_pieces());
    r
}

/// Piece 0 of the Rust unit test.
pub const UNIT_RUST_0: &'static str = "#[test]\nfn ";

/// Piece 1 of the Rust unit test.
pub const UNIT_RUST_1: &'static str = "() {\n    // Arrange\n    let input = ";

/// Piece 2 of the Rust unit test.
pub const UNIT_RUST_2: &'static str = ";\n    \n    // Act\n    let result = ";

/// Piece 3 of the Rust unit test.
pub const UNIT_RUST_3: &'static str = "(input);\n    \n    // Assert\n    assert_eq!(result, ";

/// Piece 4 of the Rust unit test.
pub const UNIT_RUST_4: &'static str = ");\n}";

/// The pieces of the Rust unit test, around its placeholders.
pub open spec fn unit_rust_pieces() -> Seq<Seq<char>> {
    seq![UNIT_RUST_0@, UNIT_RUST_1@, UNIT_RUST_2@, UNIT_RUST_3@, UNIT_RUST_4@]
}

/// The pieces of the Rust unit test.
fn unit_rust_list() -> (r: Vec<&'static str>)
    ensures
        crate::analyzer::str_views(r@) == unit_rust_pieces(),
        r@.len() == 5,
{
    let r = vec![UNIT_RUST_0, UNIT_RUST_1, UNIT_RUST_2, UNIT_RUST_3, UNIT_RUST_4];
    assert(crate::analyzer::str_views(r@) =~= unit_rust_pieces());
    r
}

/// Piece 0 of the pytest unit test.
pub const UNIT_PYTEST_0: &'static str = "def ";

/// Piece 1 of the pytest unit test.
pub const UNIT_PYTEST_1: &'static str = "():\n    \"\"\"Test ";

/// Piece 2 of the pytest unit test.
pub const UNIT_PYTEST_2: &'static str = ".\"\"\"\n    # Arrange\n    input_val = ";

/// Piece 3 of the pytest unit test.
pub const UNIT_PYTEST_3: &'static str = "\n    \n    # Act\n    result = ";

/// Piece 4 of the pytest unit test.
pub const UNIT_PYTEST_4: &'static str = "(input_val)\n    \n    # Assert\n    assert result == ";

/// Piece 5 of the pytest unit test.
pub const UNIT_PYTEST_5: &'static str = "";

/// The pieces of the pytest unit test, around its placeholders.
pub open spec fn unit_pytest_pieces() -> Seq<Seq<char>> {
    seq![UNIT_PYTEST_0@, UNIT_PYTEST_1@, UNIT_PYTEST_2@, UNIT_PYTEST_3@, UNIT_PYTEST_4@, UNIT_PYTEST_5@]
}

/// The pieces of the pytest unit test.
fn unit_pytest_list() -> (r: Vec<&'static str>)
    ensures
        crate::analyzer::str_views(r@) == unit_pytest_pieces(),
        r@.len() == 6,
{
    let r = vec![UNIT_PYTEST_0, UNIT_PYTEST_1, UNIT_PYTEST_2, UNIT_PYTEST_3, UNIT_PYTEST_4, UNIT_PYTEST_5];
    assert(crate::analyzer::str_views(r@) =~= unit_pytest_pieces());
    r
}

/// Piece 0 of the unittest unit test.
pub const UNIT_UNITTEST_0: &'static str = "def ";

/// Piece 1 of the unittest unit test.
pub const UNIT_UNITTEST_1: &'static str = "(self):\n    \"\"\"Test ";

/// Piece 2 of the unittest unit test.
pub const UNIT_UNITTEST_2: &'static str = ".\"\"\"\n    # Arrange\n    input_val = ";

/// Piece 3 of the unittest unit test.
pub const UNIT_UNITTEST_3: &'static str = "\n    \n    # Act\n    result = ";

/// Piece 4 of the unittest unit test.
pub const UNIT_UNITTEST_4: &'static str = "(input_val)\n    \n    # Assert\n    self.assertEqual(result, ";

/// Piece 5 of the unittest unit test.
pub const UNIT_UNITTEST_5: &'static str = ")";

/// The pieces of the unittest unit test, around its placeholders.
pub open spec fn unit_unittest_pieces() -> Seq<Seq<char>> {
    seq![UNIT_UNITTEST_0@, UNIT_UNITTEST_1@, UNIT_UNITTEST_2@, UNIT_UNITTEST_3@, UNIT_UNITTEST_4@, UNIT_UNITTEST_5@]
}

/// The pieces of the unittest unit test.
fn unit_unittest_list() -> (r: Vec<&'static str>)
    ensures
        crate::analyzer::str_views(r@) == unit_unittest_pieces(),
        r@.len() == 6,
{
    let r = vec![UNIT_UNITTEST_0, UNIT_UNITTEST_1, UNIT_UNITTEST_2, UNIT_UNITTEST_3, UNIT_UNITTEST_4, UNIT_UNITTEST_5];
    assert(crate::analyzer::str_views(r@) =~= unit_unittest_pieces());
    r
}

/// Piece 0 of the Jest and Vitest unit test.
pub const UNIT_JS_0: &'static str = "test('";

/// Piece 1 of the Jest and Vitest unit test.
pub const UNIT_JS_1: &'static str = "', () => {\n    // Arrange\n    const input = ";

/// Piece 2 of the Jest and Vitest unit test.
pub const UNIT_JS_2: &'static str = ";\n    \n    // Act\n    const result = ";

/// Piece 3 of the Jest and Vitest unit test.
pub const UNIT_JS_3: &'static str = "(input);\n    \n    // Assert\n    expect(result).toBe(";

/// Piece 4 of the Jest and Vitest unit test.
pub const UNIT_JS_4: &'static str = ");\n});";

/// The pieces of the Jest and Vitest unit test, around its placeholders.
pub open spec fn unit_js_pieces() -> Seq<Seq<char>> {
    seq![UNIT_JS_0@, UNIT_JS_1@, UNIT_JS_2@, UNIT_JS_3@, UNIT_JS_4@]
}

/// The pieces of the Jest and Vitest unit test.
fn unit_js_list() -> (r: Vec<&'static str>)
    ensures
        crate::analyzer::str_views(r@) == unit_js_pieces(),
        r@.len() == 5,
{
    let r = vec![UNIT_JS_0, UNIT_JS_1, UNIT_JS_2, UNIT_JS_3, UNIT_JS_4];
    assert(crate::analyzer::str_views(r@) =~= unit_js_pieces());
    r
}

/// Piece 0 of the Go unit test.
pub const UNIT_GO_0: &'static str = "func ";

/// Piece 1 of the Go unit test.
pub const UNIT_GO_1: &'static str = "(t *testing.T) {\n    // Arrange\n    input := ";

/// Piece 2 of the Go unit test.
pub const UNIT_GO_2: &'static str = "\n    expected := ";

/// Piece 3 of the Go unit test.
pub const UNIT_GO_3: &'static str = "\n    \n    // Act\n    result := ";

/// Piece 4 of the Go unit test.
pub const UNIT_GO_4: &'static str = "(input)\n    \n    // Assert\n    if result != expected {\n        t.Errorf(\"";

/// Piece 5 of the Go unit test.
pub const UNIT_GO_5: &'static str = " = %v, want %v\", result, expected)\n    }\n}";

/// The pieces of the Go unit test, around its placeholders.
pub open spec fn unit_go_pieces() -> Seq<Seq<char>> {
    seq![UNIT_GO_0@, UNIT_GO_1@, UNIT_GO_2@, UNIT_GO_3@, UNIT_GO_4@, UNIT_GO_5@]
}

/// The pieces of the Go unit test.
fn unit_go_list() -> (r: Vec<&'static str>)
    ensures
        crate::analyzer::str_views(r@) == unit_go_pieces(),
        r@.len() == 6,
{
    let r = vec![UNIT_GO_0, UNIT_GO_1, UNIT_GO_2, UNIT_GO_3, UNIT_GO_4, UNIT_GO_5];
    assert(crate::analyzer::str_views(r@) =~= unit_go_pieces());
    r
}

/// Piece 0 of the JUnit 5 unit test.
pub const UNIT_JUNIT_0: &'static str = "@Test\nvoid ";

/// Piece 1 of the JUnit 5 unit test.
pub const UNIT_JUNIT_1: &'static str = "() {\n    // Arrange\n    var input = ";

/// Piece 2 of the JUnit 5 unit test.
pub const UNIT_JUNIT_2: &'static str = ";\n    var expected = ";

/// Piece 3 of the JUnit 5 unit test.
pub const UNIT_JUNIT_3: &'static str = ";\n    \n    // Act\n    var result = ";

/// Piece 4 of the JUnit 5 unit test.
pub const UNIT_JUNIT_4: &'static str = "(input);\n    \n    // Assert\n    assertEquals(expected, result);\n}";

/// The pieces of the JUnit 5 unit test, around its placeholders.
pub open spec fn unit_junit_pieces() -> Seq<Seq<char>> {
    seq![UNIT_JUNIT_0@, UNIT_JUNIT_1@, UNIT_JUNIT_2@, UNIT_JUNIT_3@, UNIT_JUNIT_4@]
}

/// The pieces of the JUnit 5 unit test.
fn unit_junit_list() -> (r: Vec<&'static str>)
    ensures
        crate::analyzer::str_views(r@) == unit_junit_pieces(),
        r@.len() == 5,
{
    let r = vec![UNIT_JUNIT_0, UNIT_JUNIT_1, UNIT_JUNIT_2, UNIT_JUNIT_3, UNIT_JUNIT_4];
    assert(crate::analyzer::str_views(r@) =~= unit_junit_pieces());
    r
}

/// Piece 0 of the Rust error test.
pub const ERR_RUST_0: &'static str = "#[test]\nfn ";

/// Piece 1 of the Rust error test.
pub const ERR_RUST_1: &'static str = "() {\n    // Arrange - invalid input that should cause error\n    let invalid_input = todo!(\"Add invalid input\");\n    \n    // Act\n    let result = ";

/// Piece 2 of the Rust error test.
pub const ERR_RUST_2: &'static str = "(invalid_input);\n    \n    // Assert\n    assert!(result.is_err());\n}";

/// The pieces of the Rust error test, around its placeholders.
pub open spec fn err_rust_pieces() -> Seq<Seq<char>> {
    seq![ERR_RUST_0@, ERR_RUST_1@, ERR_RUST_2@]
}

/// The pieces of the Rust error test.
fn err_rust_list() -> (r: Vec<&'static str>)
    ensures
        crate::analyzer::str_views(r@) == err_rust_pieces(),
        r@.len() == 3,
{
    let r = vec![ERR_RUST_0, ERR_RUST_1, ERR_RUST_2];
    assert(crate::analyzer::str_views(r@) =~= err_rust_pieces());
    r
}

/// Piece 0 of the pytest error test.
pub const ERR_PYTEST_0: &'static str = "def ";

/// Piece 1 of the pytest error test.
pub const ERR_PYTEST_1: &'static str = "():\n    \"\"\"Test error handling in ";

/// Piece 2 of the pytest error test.
pub const ERR_PYTEST_2: &'static str = ".\"\"\"\n    import pytest\n    \n    # Arrange - invalid input that should raise exception\n    invalid_input = None  # TODO: Add invalid input\n    \n    # Act & Assert\n    with pytest.raises(Exception):\n        ";

/// Piece 3 of the pytest error test.
pub const ERR_PYTEST_3: &'static str = "(invalid_input)";

/// The pieces of the pytest error test, around its placeholders.
pub open spec fn err_pytest_pieces() -> Seq<Seq<char>> {
    seq![ERR_PYTEST_0@, ERR_PYTEST_1@, ERR_PYTEST_2@, ERR_PYTEST_3@]
}

/// The pieces of the pytest error test.
fn err_pytest_list() -> (r: Vec<&'static str>)
    ensures
        crate::analyzer::str_views(r@) == err_pytest_pieces(),
        r@.len() == 4,
{
    let r = vec![ERR_PYTEST_0, ERR_PYTEST_1, ERR_PYTEST_2, ERR_PYTEST_3];
    assert(crate::analyzer::str_views(r@) =~= err_pytest_pieces());
    r
}

/// Piece 0 of the Jest error test.
pub const ERR_JEST_0: &'static str = "test('";

/// Piece 1 of the Jest error test.
pub const ERR_JEST_1: &'static str = " throws error for invalid input', () => {\n    // Arrange - invalid input\n    const invalidInput = null;\n    \n    // Act & Assert\n    expect(() => ";

/// Piece 2 of the Jest error test.
pub const ERR_JEST_2: &'static str = "(invalidInput)).toThrow();\n});";

/// The pieces of the Jest error test, around its placeholders.
pub open spec fn err_jest_pieces() -> Seq<Seq<char>> {
    seq![ERR_JEST_0@, ERR_JEST_1@, ERR_JEST_2@]
}

/// The pieces of the Jest error test.
fn err_jest_list() -> (r: Vec<&'static str>)
    ensures
        crate::analyzer::str_views(r@) == err_jest_pieces(),
        r@.len() == 3,
{
    let r = vec![ERR_JEST_0, ERR_JEST_1, ERR_JEST_2];
    assert(crate::analyzer::str_views(r@) =~= err_jest_pieces());
    r
}

/// Piece 0 of the Go error test.
pub const ERR_GO_0: &'static str = "func ";

/// Piece 1 of the Go error test.
pub const ERR_GO_1: &'static str = "(t *testing.T) {\n    // Arrange - invalid input\n    invalidInput := nil\n    \n    // Act\n    _, err := ";

/// Piece 2 of the Go error test.
pub const ERR_GO_2: &'static str = "(invalidInput)\n    \n    // Assert\n    if err == nil {\n        t.Error(\"Expected error for invalid input, got nil\")\n    }\n}";

/// The pieces of the Go error test, around its placeholders.
pub open spec fn err_go_pieces() -> Seq<Seq<char>> {
    seq![ERR_GO_0@, ERR_GO_1@, ERR_GO_2@]
}

/// The pieces of the Go error test.
fn err_go_list() -> (r: Vec<&'static str>)
    ensures
        crate::analyzer::str_views(r@) == err_go_pieces(),
        r@.len() == 3,
{
    let r = vec![ERR_GO_0, ERR_GO_1, ERR_GO_2];
    assert(crate::analyzer::str_views(r@) =~= err_go_pieces());
    r
}

/// Shared setup for pytest.
pub const SETUP_PYTEST: &'static str = "@pytest.fixture\ndef setup():\n    \"\"\"Shared test setup.\"\"\"\n    # Add setup code here\n    yield\n    # Add teardown code here";

/// Shared setup for jest.
pub const SETUP_JEST: &'static str = "beforeEach(() => {\n    // Setup before each test\n});\n\nafterEach(() => {\n    // Cleanup after each test\n});";

/// Shared setup for junit.
pub const SETUP_JUNIT: &'static str = "@BeforeEach\nvoid setUp() {\n    // Setup before each test\n}\n\n@AfterEach\nvoid tearDown() {\n    // Cleanup after each test\n}";

/// The language and framework pair use the Jest or Vitest unit template.
pub open spec fn js_unit(lang: Language, fw: TestFramework) -> bool {
    (lang == Language::JavaScript || lang == Language::TypeScript) && (fw == TestFramework::Jest || fw
        == TestFramework::Vitest)
}

/// The code of a unit test calling `func_name` on `inputs` and expecting
/// `expected`, in the idiom of the language and framework.
pub open spec fn unit_test_code(
    test_name: Seq<char>,
    func_name: Seq<char>,
    lang: Language,
    fw: TestFramework,
    inputs: Seq<char>,
    expected: Seq<char>,
) -> Seq<char> {
    if lang == Language::Rust && fw == TestFramework::RustBuiltin {
        interleave(unit_rust_pieces(), seq![test_name, inputs, func_name, expected])
    } else if lang == Language::Python && fw == TestFramework::Pytest {
        interleave(unit_pytest_pieces(), seq![test_name, func_name, inputs, func_name, expected])
    } else if lang == Language::Python && fw == TestFramework::Unittest {
        interleave(unit_unittest_pieces(), seq![test_name, func_name, inputs, func_name, expected])
    } else if js_unit(lang, fw) {
        interleave(unit_js_pieces(), seq![replace_all(test_name, "_"@, " "@), inputs, func_name, expected])
    } else if lang == Language::Go && fw == TestFramework::GoTest {
        interleave(unit_go_pieces(), seq![tg_pascal_of(test_name), inputs, expected, func_name, func_name])
    } else if lang == Language::Java && fw == TestFramework::JUnit5 {
        interleave(unit_junit_pieces(), seq![test_name, inputs, expected, func_name])
    } else {
        "// TODO: Generate test for "@ + func_name + " with "@ + file_suffix(fw) + " framework"@
    }
}

/// The code of an error-handling test of `func_name`.
pub open spec fn error_test_code(test_name: Seq<char>, func_name: Seq<char>, lang: Language, fw: TestFramework) -> Seq<
    char,
> {
    if lang == Language::Rust && fw == TestFramework::RustBuiltin {
        interleave(err_rust_pieces(), seq![test_name, func_name])
    } else if lang == Language::Python && fw == TestFramework::Pytest {
        interleave(err_pytest_pieces(), seq![test_name, func_name, func_name])
    } else if (lang == Language::JavaScript || lang == Language::TypeScript) && fw == TestFramework::Jest {
        interleave(err_jest_pieces(), seq![func_name, func_name])
    } else if lang == Language::Go && fw == TestFramework::GoTest {
        interleave(err_go_pieces(), seq![tg_pascal_of(test_name), func_name])
    } else {
        "// TODO: Generate error test for "@ + func_name
    }
}

/// The code of a property-based test, for Rust with its built-in harness
/// and Python with pytest only.
pub open spec fn property_test_code(test_name: Seq<char>, func_name: Seq<char>, lang: Language, fw: TestFramework) -> Option<
    Seq<char>,
> {
    if lang == Language::Rust && fw == TestFramework::RustBuiltin {
        Some(interleave(prop_rust_pieces(), seq![test_name, func_name]))
    } else if lang == Language::Python && fw == TestFramework::Pytest {
        Some(interleave(prop_python_pieces(), seq![test_name, func_name]))
    } else {
        None
    }
}

/// The imports of a test file for the module.
pub open spec fn imports_for(module: Seq<char>, lang: Language, fw: TestFramework) -> Seq<Seq<char>> {
    if lang == Language::Rust && fw == TestFramework::RustBuiltin {
        seq!["use super::*;"@]
    } else if lang == Language::Python && fw == TestFramework::Pytest {
        seq!["import pytest"@, "from "@ + module + " import *"@]
    } else if lang == Language::Python && fw == TestFramework::Unittest {
        seq!["import unittest"@, "from "@ + module + " import *"@]
    } else if lang == Language::JavaScript && fw == TestFramework::Jest {
        seq!["const { ... } = require('./"@ + module + "');"@]
    } else if lang == Language::TypeScript && (fw == TestFramework::Jest || fw == TestFramework::Vitest) {
        seq!["import { describe, test, expect } from 'vitest';"@, "import { ... } from './"@ + module + "';"@]
    } else if lang == Language::Go && fw == TestFramework::GoTest {
        seq!["import \"testing\""@]
    } else if lang == Language::Java && fw == TestFramework::JUnit5 {
        seq!["import org.junit.jupiter.api.Test;"@, "import static org.junit.jupiter.api.Assertions.*;"@]
    } else {
        seq![]
    }
}

/// The shared setup of a test file, for pytest, Jest and JUnit 5.
pub open spec fn setup_for(lang: Language, fw: TestFramework) -> Option<Seq<char>> {
    if lang == Language::Python && fw == TestFramework::Pytest {
        Some(SETUP_PYTEST@)
    } else if (lang == Language::JavaScript || lang == Language::TypeScript) && fw == TestFramework::Jest {
        Some(SETUP_JEST@)
    } else if lang == Language::Java && fw == TestFramework::JUnit5 {
        Some(SETUP_JUNIT@)
    } else {
        None
    }
}

/// The header comment of a test file for the module.
pub open spec fn file_header(lang: Language, module: Seq<char>) -> Seq<char> {
    match lang {
        Language::Rust => "//! Tests for "@ + module + "\n//!\n//! Auto-generated by Ember Code Intelligence\n"@,
        Language::Python => "\"\"\"Tests for "@ + module + ".\n\nAuto-generated by Ember Code Intelligence.\n\"\"\"\n"@,
        Language::JavaScript | Language::TypeScript | Language::Java => "/**\n * Tests for "@ + module
            + "\n *\n * Auto-generated by Ember Code Intelligence\n */\n"@,
        Language::Go => "// Tests for "@ + module + "\n//\n// Auto-generated by Ember Code Intelligence\n"@,
        Language::Unknown => "// Tests for "@ + module + "\n"@,
    }
}

/// A string made of two pieces.
fn concat2(a: &str, b: &str) -> (r: String)
    ensures
        r@ == a@ + b@,
{
    let mut out = chars_of(a);
    extend_str(&mut out, b);
    string_from_chars(&out)
}

/// A string made of three pieces.
fn concat3(a: &str, b: &str, c: &str) -> (r: String)
    ensures
        r@ == a@ + b@ + c@,
{
    let mut out = chars_of(a);
    extend_str(&mut out, b);
    extend_str(&mut out, c);
    string_from_chars(&out)
}

impl TestGenerator {
    /// The code of a unit test, in the idiom of the language and framework.
    pub fn generate_test_code(
        &self,
        test_name: &str,
        func_name: &str,
        language: Language,
        framework: TestFramework,
        _test_type: TestType,
        inputs: &str,
        expected: &str,
    ) -> (r: String)
        ensures
            r@ == unit_test_code(test_name@, func_name@, language, framework, inputs@, expected@),
    {
        if language == Language::Rust && framework == TestFramework::RustBuiltin {
            let a = vec![test_name, inputs, func_name, expected];
            assert(str_views(a@) =~= seq![test_name@, inputs@, func_name@, expected@]);
            fill(&unit_rust_list(), &a)
        } else if language == Language::Python && framework == TestFramework::Pytest {
            let a = vec![test_name, func_name, inputs, func_name, expected];
            assert(str_views(a@) =~= seq![test_name@, func_name@, inputs@, func_name@, expected@]);
            fill(&unit_pytest_list(), &a)
        } else if language == Language::Python && framework == TestFramework::Unittest {
            let a = vec![test_name, func_name, inputs, func_name, expected];
            assert(str_views(a@) =~= seq![test_name@, func_name@, inputs@, func_name@, expected@]);
            fill(&unit_unittest_list(), &a)
        } else if (language == Language::JavaScript || language == Language::TypeScript) && (framework
            == TestFramework::Jest || framework == TestFramework::Vitest) {
            proof {
                reveal_strlit("_");
            }
            let spaced = string_from_chars(&replace_lit(&chars_of(test_name), "_", " "));
            let a = vec![spaced.as_str(), inputs, func_name, expected];
            assert(str_views(a@) =~= seq![replace_all(test_name@, "_"@, " "@), inputs@, func_name@, expected@]);
            fill(&unit_js_list(), &a)
        } else if language == Language::Go && framework == TestFramework::GoTest {
            let pascal = self.to_pascal_case(test_name);
            let a = vec![pascal.as_str(), inputs, expected, func_name, func_name];
            assert(str_views(a@) =~= seq![tg_pascal_of(test_name@), inputs@, expected@, func_name@, func_name@]);
            fill(&unit_go_list(), &a)
        } else if language == Language::Java && framework == TestFramework::JUnit5 {
            let a = vec![test_name, inputs, expected, func_name];
            assert(str_views(a@) =~= seq![test_name@, inputs@, expected@, func_name@]);
            fill(&unit_junit_list(), &a)
        } else {
            let mut out = chars_of("// TODO: Generate test for ");
            extend_str(&mut out, func_name);
            extend_str(&mut out, " with ");
            extend_str(&mut out, framework.test_file_suffix());
            extend_str(&mut out, " framework");
            string_from_chars(&out)
        }
    }

    /// The code of an error-handling test.
    pub fn generate_error_test_code(
        &self,
        test_name: &str,
        func_name: &str,
        language: Language,
        framework: TestFramework,
    ) -> (r: String)
        ensures
            r@ == error_test_code(test_name@, func_name@, language, framework),
    {
        if language == Language::Rust && framework == TestFramework::RustBuiltin {
            let a = vec![test_name, func_name];
            assert(str_views(a@) =~= seq![test_name@, func_name@]);
            fill(&err_rust_list(), &a)
        } else if language == Language::Python && framework == TestFramework::Pytest {
            let a = vec![test_name, func_name, func_name];
            assert(str_views(a@) =~= seq![test_name@, func_name@, func_name@]);
            fill(&err_pytest_list(), &a)
        } else if (language == Language::JavaScript || language == Language::TypeScript) && framework
            == TestFramework::Jest {
            let a = vec![func_name, func_name];
            assert(str_views(a@) =~= seq![func_name@, func_name@]);
            fill(&err_jest_list(), &a)
        } else if language == Language::Go && framework == TestFramework::GoTest {
            let pascal = self.to_pascal_case(test_name);
            let a = vec![pascal.as_str(), func_name];
            assert(str_views(a@) =~= seq![tg_pascal_of(test_name@), func_name@]);
            fill(&err_go_list(), &a)
        } else {
            let mut out = chars_of("// TODO: Generate error test for ");
            extend_str(&mut out, func_name);
            string_from_chars(&out)
        }
    }

    /// The property-based test code, where the language and framework have one.
    fn property_code(&self, test_name: &str, func_name: &str, language: Language, framework: TestFramework) -> (r:
        Option<String>)
        ensures
            crate::analyzer::opt_view(r) == property_test_code(test_name@, func_name@, language, framework),
    {
        let a = vec![test_name, func_name];
        assert(str_views(a@) =~= seq![test_name@, func_name@]);
        if language == Language::Rust && framework == TestFramework::RustBuiltin {
            Some(fill(&prop_rust_list(), &a))
        } else if language == Language::Python && framework == TestFramework::Pytest {
            Some(fill(&prop_python_list(), &a))
        } else {
            None
        }
    }

    /// The imports of a test file for the module.
    fn imports_for_module(&self, module_name: &str, language: Language, framework: TestFramework) -> (r: Vec<
        String,
    >)
        ensures
            crate::text::string_views(r@) == imports_for(module_name@, language, framework),
    {
        let mut v: Vec<String> = Vec::new();
        if language == Language::Rust && framework == TestFramework::RustBuiltin {
            v.push(crate::text::owned("use super::*;"));
        } else if language == Language::Python && framework == TestFramework::Pytest {
            v.push(crate::text::owned("import pytest"));
            v.push(concat3("from ", module_name, " import *"));
        } else if language == Language::Python && framework == TestFramework::Unittest {
            v.push(crate::text::owned("import unittest"));
            v.push(concat3("from ", module_name, " import *"));
        } else if language == Language::JavaScript && framework == TestFramework::Jest {
            v.push(concat3("const { ... } = require('./", module_name, "');"));
        } else if language == Language::TypeScript && (framework == TestFramework::Jest || framework
            == TestFramework::Vitest) {
            v.push(crate::text::owned("import { describe, test, expect } from 'vitest';"));
            v.push(concat3("import { ... } from './", module_name, "';"));
        } else if language == Language::Go && framework == TestFramework::GoTest {
            v.push(crate::text::owned("import \"testing\""));
        } else if language == Language::Java && framework == TestFramework::JUnit5 {
            v.push(crate::text::owned("import org.junit.jupiter.api.Test;"));
            v.push(crate::text::owned("import static org.junit.jupiter.api.Assertions.*;"));
        }
        assert(crate::text::string_views(v@) =~= imports_for(module_name@, language, framework));
        v
    }

    /// The shared setup of a test file, for pytest, Jest and JUnit 5.
    pub fn generate_shared_setup(&self, language: Language, framework: TestFramework) -> (r: Option<String>)
        ensures
            crate::analyzer::opt_view(r) == setup_for(language, framework),
    {
        if language == Language::Python && framework == TestFramework::Pytest {
            Some(crate::text::owned(SETUP_PYTEST))
        } else if (language == Language::JavaScript || language == Language::TypeScript) && framework
            == TestFramework::Jest {
            Some(crate::text::owned(SETUP_JEST))
        } else if language == Language::Java && framework == TestFramework::JUnit5 {
            Some(crate::text::owned(SETUP_JUNIT))
        } else {
            None
        }
    }

    /// The shared teardown of a test file: none, setup code carries it.
    pub fn generate_shared_teardown(&self, _language: Language, _framework: TestFramework) -> (r: Option<String>)
        ensures
            r is None,
    {
        None
    }

    /// The header comment of a test file for the module.
    pub fn generate_file_header(&self, language: Language, module_name: &str) -> (r: String)
        ensures
            r@ == file_header(language, module_name@),
    {
        match language {
            Language::Rust => concat3(
                "//! Tests for ",
                module_name,
                "\n//!\n//! Auto-generated by Ember Code Intelligence\n",
            ),
            Language::Python => concat3(
                "\"\"\"Tests for ",
                module_name,
                ".\n\nAuto-generated by Ember Code Intelligence.\n\"\"\"\n",
            ),
            Language::JavaScript | Language::TypeScript | Language::Java => concat3(
                "/**\n * Tests for ",
                module_name,
                "\n *\n * Auto-generated by Ember Code Intelligence\n */\n",
            ),
            Language::Go => concat3(
                "// Tests for ",
                module_name,
                "\n//\n// Auto-generated by Ember Code Intelligence\n",
            ),
            Language::Unknown => concat3("// Tests for ", module_name, "\n"),
        }
    }
}

// ─── Paths ───────────────────────────────────────────────────────────────────

/// What `Path::file_stem` gives for the path, as text.
pub uninterp spec fn path_file_stem(p: Seq<char>) -> Option<Seq<char>>;

/// What `Path::extension` gives for the path, as text.
pub uninterp spec fn path_extension(p: Seq<char>) -> Option<Seq<char>>;

/// What `Path::parent` gives for the path, as text.
pub uninterp spec fn path_parent(p: Seq<char>) -> Option<Seq<char>>;

/// What `Path::join` gives for the base and the name, as text.
pub uninterp spec fn path_join(base: Seq<char>, name: Seq<char>) -> Seq<char>;

/// `Path::file_stem`: the result is the stem the path names, by the name
/// `path_file_stem`; paths made from text have textual stems.
#[verifier::external_body]
fn file_stem_of(p: &str) -> (r: Option<String>)
    ensures
        crate::analyzer::opt_view(r) == path_file_stem(p@),
{
    std::path::Path::new(p).file_stem().and_then(|s| s.to_str()).map(|s| s.to_string())
}

/// `Path::extension`: the result is the extension the path names, by the
/// name `path_extension`.
#[verifier::external_body]
fn extension_of(p: &str) -> (r: Option<String>)
    ensures
        crate::analyzer::opt_view(r) == path_extension(p@),
{
    std::path::Path::new(p).extension().and_then(|s| s.to_str()).map(|s| s.to_string())
}

/// `Path::parent`: the result is the parent the path names, by the name
/// `path_parent`.
#[verifier::external_body]
fn parent_of(p: &str) -> (r: Option<String>)
    ensures
        crate::analyzer::opt_view(r) == path_parent(p@),
{
    std::path::Path::new(p).parent().and_then(|s| s.to_str()).map(|s| s.to_string())
}

/// `Path::join`: the result is the joined path, by the name `path_join`.
#[verifier::external_body]
pub(crate) fn join_path(base: &str, name: &str) -> (r: String)
    ensures
        r@ == path_join(base@, name@),
{
    std::path::Path::new(base).join(name).to_string_lossy().into_owned()
}

/// The module a test file is for: the source's file stem, or `module`.
pub open spec fn module_of(source: Seq<char>) -> Seq<char> {
    match path_file_stem(source) {
        Some(m) => m,
        None => "module"@,
    }
}

/// Where the tests of a source file go: in the output directory, or next to
/// the source, under a name that follows the conventions of the language.
pub open spec fn test_file_path(
    output_dir: Option<Seq<char>>,
    source: Seq<char>,
    lang: Language,
    fw: TestFramework,
) -> Seq<char> {
    let base = match output_dir {
        Some(d) => d,
        None => match path_parent(source) {
            Some(p) => p,
            None => "."@,
        },
    };
    let stem = match path_file_stem(source) {
        Some(s) => s,
        None => "test"@,
    };
    let ext = match path_extension(source) {
        Some(e) => e,
        None => "rs"@,
    };
    path_join(
        base,
        match lang {
            Language::Rust => stem + "_test."@ + ext,
            Language::Python => "test_"@ + stem + "."@ + ext,
            Language::JavaScript | Language::TypeScript => stem + file_suffix(fw) + "."@ + ext,
            Language::Go => stem + "_test.go"@,
            Language::Java => stem + "Test.java"@,
            Language::Unknown => stem + "_test.txt"@,
        },
    )
}

/// A string's characters, or those of a default.
fn text_or(o: Option<String>, d: &str) -> (r: String)
    ensures
        r@ == match crate::analyzer::opt_view(o) {
            Some(t) => t,
            None => d@,
        },
{
    match o {
        Some(t) => t,
        None => crate::text::owned(d),
    }
}

impl TestGenerator {
    /// Where the tests of a source file go.
    pub fn calculate_test_file_path(&self, source_file: &str, language: Language, framework: TestFramework) -> (r:
        String)
        ensures
            r@ == test_file_path(
                crate::analyzer::opt_view(self.spec_config().output_dir),
                source_file@,
                language,
                framework,
            ),
    {
        let base = match &self.config.output_dir {
            Some(d) => crate::text::owned(d.as_str()),
            None => text_or(parent_of(source_file), "."),
        };
        let stem = text_or(file_stem_of(source_file), "test");
        let ext = text_or(extension_of(source_file), "rs");
        let suffix = framework.test_file_suffix();
        let mut name = match language {
            Language::Python => chars_of("test_"),
            _ => Vec::new(),
        };
        extend_str(&mut name, stem.as_str());
        match language {
            Language::Rust => {
                extend_str(&mut name, "_test.");
                extend_str(&mut name, ext.as_str());
            },
            Language::Python => {
                extend_str(&mut name, ".");
                extend_str(&mut name, ext.as_str());
            },
            Language::JavaScript | Language::TypeScript => {
                extend_str(&mut name, suffix);
                extend_str(&mut name, ".");
                extend_str(&mut name, ext.as_str());
            },
            Language::Go => extend_str(&mut name, "_test.go"),
            Language::Java => extend_str(&mut name, "Test.java"),
            Language::Unknown => extend_str(&mut name, "_test.txt"),
        }
        assert(name@ =~= match language {
            Language::Rust => stem@ + "_test."@ + ext@,
            Language::Python => "test_"@ + stem@ + "."@ + ext@,
            Language::JavaScript | Language::TypeScript => stem@ + file_suffix(framework) + "."@ + ext@,
            Language::Go => stem@ + "_test.go"@,
            Language::Java => stem@ + "Test.java"@,
            Language::Unknown => stem@ + "_test.txt"@,
        });
        let n = string_from_chars(&name);
        join_path(base.as_str(), n.as_str())
    }
}

// ─── The test file ───────────────────────────────────────────────────────────

/// Each string followed by a newline.
pub open spec fn lines_nl(v: Seq<Seq<char>>) -> Seq<char>
    decreases v.len(),
{
    if v.len() == 0 {
        seq![]
    } else {
        lines_nl(v.drop_last()) + v.last() + "\n"@
    }
}

/// Each line indented by four spaces and followed by a newline.
pub open spec fn indent_lines(v: Seq<Seq<char>>) -> Seq<char>
    decreases v.len(),
{
    if v.len() == 0 {
        seq![]
    } else {
        indent_lines(v.drop_last()) + "    "@ + v.last() + "\n"@
    }
}

/// Each test's code indented line by line, followed by a blank line.
pub open spec fn indented_tests(codes: Seq<Seq<char>>) -> Seq<char>
    decreases codes.len(),
{
    if codes.len() == 0 {
        seq![]
    } else {
        indented_tests(codes.drop_last()) + indent_lines(lines(codes.last())) + "\n"@
    }
}

/// Each test's code followed by a blank line.
pub open spec fn plain_tests(codes: Seq<Seq<char>>) -> Seq<char>
    decreases codes.len(),
{
    if codes.len() == 0 {
        seq![]
    } else {
        plain_tests(codes.drop_last()) + codes.last() + "\n\n"@
    }
}

/// The language and framework pair wrap their tests in a `describe` block.
pub open spec fn js_describe(lang: Language, fw: TestFramework) -> bool {
    (lang == Language::JavaScript && fw == TestFramework::Jest) || (lang == Language::TypeScript && (fw
        == TestFramework::Jest || fw == TestFramework::Vitest))
}

/// The complete test file: header, imports, shared setup, and the tests,
/// wrapped in a test module, a test class or a `describe` block where the
/// language and framework call for one.
pub open spec fn full_test_file(
    source: Seq<char>,
    lang: Language,
    fw: TestFramework,
    imports: Seq<Seq<char>>,
    codes: Seq<Seq<char>>,
    setup: Option<Seq<char>>,
) -> Seq<char> {
    let m = module_of(source);
    let head = file_header(lang, m) + "\n"@ + lines_nl(imports) + "\n"@ + match setup {
        Some(s) => s + "\n\n"@,
        None => seq![],
    };
    head + if lang == Language::Rust {
        "#[cfg(test)]\n"@ + "mod tests {\n"@ + "    use super::*;\n\n"@ + indented_tests(codes) + "}\n"@
    } else if lang == Language::Python && fw == TestFramework::Unittest {
        "class Test"@ + tg_pascal_of(m) + "(unittest.TestCase):\n"@ + indented_tests(codes)
            + "\nif __name__ == '__main__':\n"@ + "    unittest.main()\n"@
    } else if js_describe(lang, fw) {
        "describe('"@ + m + "', () => {\n"@ + indented_tests(codes) + "});\n"@
    } else {
        plain_tests(codes)
    }
}

/// Appends the code's lines, each indented by four spaces and ended by a newline.
fn push_indented(out: &mut Vec<char>, code: &str)
    ensures
        final(out)@ == old(out)@ + indent_lines(lines(code@)),
{
    let cs = chars_of(code);
    let ls = lines_of(&cs);
    let ghost lv = views(ls@);
    let ghost start = out@;
    let mut k: usize = 0;
    while k < ls.len()
        invariant
            k <= ls.len(),
            lv == views(ls@),
            lv == lines(code@),
            out@ == start + indent_lines(lv.take(k as int)),
        decreases ls.len() - k,
    {
        let ghost o = out@;
        extend_str(out, "    ");
        extend_chars(out, &ls[k]);
        extend_str(out, "\n");
        assert(lv.take(k + 1).drop_last() =~= lv.take(k as int));
        assert(lv.take(k + 1).last() == ls@[k as int]@);
        assert(out@ =~= start + indent_lines(lv.take(k + 1)));
        k += 1;
    }
    assert(lv.take(ls.len() as int) =~= lv);
}

/// Appends each test's code, indented, followed by a blank line.
fn push_indented_tests(out: &mut Vec<char>, tests: &[GeneratedTest])
    ensures
        final(out)@ == old(out)@ + indented_tests(test_codes(test_models(tests@))),
{
    let ghost cv = test_codes(test_models(tests@));
    let ghost start = out@;
    let mut k: usize = 0;
    while k < tests.len()
        invariant
            k <= tests.len(),
            cv == test_codes(test_models(tests@)),
            out@ == start + indented_tests(cv.take(k as int)),
        decreases tests.len() - k,
    {
        push_indented(out, tests[k].code.as_str());
        extend_str(out, "\n");
        assert(cv.take(k + 1).drop_last() =~= cv.take(k as int));
        assert(cv.take(k + 1).last() == tests@[k as int].code@);
        assert(out@ =~= start + indented_tests(cv.take(k + 1)));
        k += 1;
    }
    assert(cv.take(tests.len() as int) =~= cv);
}

/// Appends each test's code followed by a blank line.
fn push_plain_tests(out: &mut Vec<char>, tests: &[GeneratedTest])
    ensures
        final(out)@ == old(out)@ + plain_tests(test_codes(test_models(tests@))),
{
    let ghost cv = test_codes(test_models(tests@));
    let ghost start = out@;
    let mut k: usize = 0;
    while k < tests.len()
        invariant
            k <= tests.len(),
            cv == test_codes(test_models(tests@)),
            out@ == start + plain_tests(cv.take(k as int)),
        decreases tests.len() - k,
    {
        extend_str(out, tests[k].code.as_str());
        extend_str(out, "\n\n");
        assert(cv.take(k + 1).drop_last() =~= cv.take(k as int));
        assert(cv.take(k + 1).last() == tests@[k as int].code@);
        assert(out@ =~= start + plain_tests(cv.take(k + 1)));
        k += 1;
    }
    assert(cv.take(tests.len() as int) =~= cv);
}

impl TestGenerator {
    /// The complete test file.
    #[verifier::spinoff_prover]
    #[verifier::rlimit(40)]
    pub fn generate_full_test_file(
        &self,
        source_file: &str,
        language: Language,
        framework: TestFramework,
        imports: &[String],
        tests: &[GeneratedTest],
        shared_setup: &Option<String>,
        _shared_teardown: &Option<String>,
    ) -> (r: String)
        ensures
            r@ == full_test_file(
                source_file@,
                language,
                framework,
                crate::text::string_views(imports@),
                test_codes(test_models(tests@)),
                crate::analyzer::opt_view(*shared_setup),
            ),
    {
        let module = text_or(file_stem_of(source_file), "module");
        let m = module.as_str();
        let header = self.generate_file_header(language, m);
        let mut content = chars_of(header.as_str());
        extend_str(&mut content, "\n");
        let ghost iv = crate::text::string_views(imports@);
        let ghost h = content@;
        let mut k: usize = 0;
        while k < imports.len()
            invariant
                k <= imports.len(),
                iv == crate::text::string_views(imports@),
                content@ == h + lines_nl(iv.take(k as int)),
            decreases imports.len() - k,
        {
            extend_str(&mut content, imports[k].as_str());
            extend_str(&mut content, "\n");
            assert(iv.take(k + 1).drop_last() =~= iv.take(k as int));
            assert(iv.take(k + 1).last() == imports@[k as int]@);
            assert(content@ =~= h + lines_nl(iv.take(k + 1)));
            k += 1;
        }
        assert(iv.take(imports.len() as int) =~= iv);
        extend_str(&mut content, "\n");
        match shared_setup {
            Some(setup) => {
                extend_str(&mut content, setup.as_str());
                extend_str(&mut content, "\n\n");
            },
            None => {},
        }
        let ghost head = content@;
        if language == Language::Rust {
            extend_str(&mut content, "#[cfg(test)]\n");
            extend_str(&mut content, "mod tests {\n");
            extend_str(&mut content, "    use super::*;\n\n");
            push_indented_tests(&mut content, tests);
            extend_str(&mut content, "}\n");
        } else if language == Language::Python && framework == TestFramework::Unittest {
            let pascal = self.to_pascal_case(m);
            extend_str(&mut content, "class Test");
            extend_str(&mut content, pascal.as_str());
            extend_str(&mut content, "(unittest.TestCase):\n");
            push_indented_tests(&mut content, tests);
            extend_str(&mut content, "\nif __name__ == '__main__':\n");
            extend_str(&mut content, "    unittest.main()\n");
        } else if (language == Language::JavaScript && framework == TestFramework::Jest) || (language
            == Language::TypeScript && (framework == TestFramework::Jest || framework
            == TestFramework::Vitest)) {
            extend_str(&mut content, "describe('");
            extend_str(&mut content, m);
            extend_str(&mut content, "', () => {\n");
            push_indented_tests(&mut content, tests);
            extend_str(&mut content, "});\n");
        } else {
            push_plain_tests(&mut content, tests);
        }
        assert(content@ =~= full_test_file(
            source_file@,
            language,
            framework,
            iv,
            test_codes(test_models(tests@)),
            crate::analyzer::opt_view(*shared_setup),
        ));
        string_from_chars(&content)
    }
}

// ─── Tests of a symbol ───────────────────────────────────────────────────────

/// The name of a test of the function: `test_`, the function's snake_case
/// name, and the suffix.
pub open spec fn test_name_of(func: Seq<char>, suffix: Seq<char>) -> Seq<char> {
    "test_"@ + crate::refactor::snake_of(func) + suffix
}

/// The happy-path test of a function.
pub open spec fn happy_test(func: Seq<char>, code: Seq<char>, lang: Language, fw: TestFramework) -> TestModel {
    let t = test_name_of(func, "_basic"@);
    TestModel {
        name: t,
        test_type: TestType::Unit,
        description: "Test basic functionality of "@ + func,
        code: unit_test_code(t, func, lang, fw, inputs_for(code, lang), expected_for(code, lang)),
        setup: None,
        teardown: None,
        assertion_count: 1,
        tags: seq!["unit"@],
        confidence: 80,
    }
}

/// The test of a function for one edge case.
pub open spec fn edge_test(
    func: Seq<char>,
    lang: Language,
    fw: TestFramework,
    case: (Seq<char>, Seq<char>, Seq<char>),
) -> TestModel {
    let t = test_name_of(func, "_"@ + case.0);
    TestModel {
        name: t,
        test_type: TestType::EdgeCase,
        description: "Test "@ + func + " with edge case: "@ + case.0,
        code: unit_test_code(t, func, lang, fw, case.1, case.2),
        setup: None,
        teardown: None,
        assertion_count: 1,
        tags: seq!["edge_case"@],
        confidence: 70,
    }
}

/// The edge-case tests of a function: for its first three edge cases.
pub open spec fn edge_tests(func: Seq<char>, code: Seq<char>, lang: Language, fw: TestFramework) -> Seq<TestModel> {
    let cases = edge_cases_of(code, lang);
    let n = if cases.len() < 3 {
        cases.len() as int
    } else {
        3
    };
    cases.take(n).map_values(|c: (Seq<char>, Seq<char>, Seq<char>)| edge_test(func, lang, fw, c))
}

/// The code shows signs of failing: error types, raising or throwing.
pub open spec fn can_error(code: Seq<char>, lang: Language) -> bool {
    match lang {
        Language::Rust => contains(code, "Result<"@) || contains(code, "Option<"@),
        Language::Python => contains(code, "raise "@) || contains(code, "except"@),
        Language::JavaScript | Language::TypeScript => contains(code, "throw "@) || contains(code, "catch"@),
        Language::Go => contains(code, "error"@) || contains(code, "err !="@),
        Language::Java => contains(code, "throws "@) || contains(code, "catch"@),
        _ => false,
    }
}

/// The error-handling test of a function that can fail.
pub open spec fn error_tests(func: Seq<char>, code: Seq<char>, lang: Language, fw: TestFramework) -> Seq<TestModel> {
    let t = test_name_of(func, "_error_handling"@);
    if can_error(code, lang) {
        seq![
            TestModel {
                name: t,
                test_type: TestType::ErrorHandling,
                description: "Test error handling in "@ + func,
                code: error_test_code(t, func, lang, fw),
                setup: None,
                teardown: None,
                assertion_count: 1,
                tags: seq!["error"@],
                confidence: 65,
            },
        ]
    } else {
        seq![]
    }
}

/// The property-based test of a function, where there is one.
pub open spec fn property_tests(func: Seq<char>, lang: Language, fw: TestFramework) -> Seq<TestModel> {
    let t = test_name_of(func, "_property"@);
    match property_test_code(t, func, lang, fw) {
        Some(c) => seq![
            TestModel {
                name: t,
                test_type: TestType::Property,
                description: "Property-based test for "@ + func,
                code: c,
                setup: None,
                teardown: None,
                assertion_count: 1,
                tags: seq!["property"@, "fuzz"@],
                confidence: 60,
            },
        ],
        None => seq![],
    }
}

/// The tests of a function: the happy path, then, while fewer than the
/// maximum, edge cases, error handling and a property test as configured;
/// at most the maximum.
pub open spec fn symbol_tests(cfg: TestGenConfig, func: Seq<char>, code: Seq<char>, lang: Language, fw: TestFramework) -> Seq<
    TestModel,
> {
    let max = cfg.max_tests_per_function;
    let t0 = seq![happy_test(func, code, lang, fw)];
    let t1 = if cfg.include_edge_cases && t0.len() < max {
        t0 + edge_tests(func, code, lang, fw)
    } else {
        t0
    };
    let t2 = if cfg.include_error_tests && t1.len() < max {
        t1 + error_tests(func, code, lang, fw)
    } else {
        t1
    };
    let t3 = if cfg.include_property_tests && t2.len() < max {
        t2 + property_tests(func, lang, fw)
    } else {
        t2
    };
    if max < t3.len() {
        t3.take(max as int)
    } else {
        t3
    }
}

/// A symbol is tested: a function or method visible enough.
pub open spec fn should_test(kind: SymbolKind, vis: Visibility, min: Visibility) -> bool {
    &&& kind == SymbolKind::Function || kind == SymbolKind::Method
    &&& !(vis == Visibility::Private && min == Visibility::Public)
    &&& !(vis == Visibility::Private && min == Visibility::Protected)
    &&& !(vis == Visibility::Protected && min == Visibility::Public)
}

/// The tests of all tested symbols, in order.
pub open spec fn tests_of(
    cfg: TestGenConfig,
    syms: Seq<crate::analyzer::SymbolModel>,
    ls: Seq<Seq<char>>,
    lang: Language,
    fw: TestFramework,
) -> Seq<TestModel>
    decreases syms.len(),
{
    if syms.len() == 0 {
        seq![]
    } else {
        let s = syms.last();
        tests_of(cfg, syms.drop_last(), ls, lang, fw) + if should_test(s.kind, s.visibility, cfg.min_visibility) {
            symbol_tests(
                cfg,
                s.name,
                crate::refactor::code_range(ls, s.start_line, s.end_line),
                lang,
                fw,
            )
        } else {
            seq![]
        }
    }
}

/// The tags of a test.
fn tags(a: &str) -> (r: Vec<String>)
    ensures
        crate::text::string_views(r@) == seq![a@],
{
    let mut v: Vec<String> = Vec::new();
    v.push(crate::text::owned(a));
    assert(crate::text::string_views(v@) =~= seq![a@]);
    v
}

/// `test_`, the snake_case name, and the suffix.
fn test_name(g: &TestGenerator, func: &str, suffix: &str) -> (r: String)
    ensures
        r@ == test_name_of(func@, suffix@),
{
    let snake = g.to_snake_case(func);
    concat3("test_", snake.as_str(), suffix)
}

impl TestGenerator {
    /// Whether a symbol is tested.
    pub fn should_test_symbol(&self, symbol: &crate::analyzer::CodeSymbol) -> (r: bool)
        ensures
            r == should_test(symbol.kind, symbol.visibility, self.spec_config().min_visibility),
    {
        if symbol.kind != SymbolKind::Function && symbol.kind != SymbolKind::Method {
            return false;
        }
        let v = symbol.visibility;
        let m = self.config.min_visibility;
        !((v == Visibility::Private && m == Visibility::Public) || (v == Visibility::Private && m
            == Visibility::Protected) || (v == Visibility::Protected && m == Visibility::Public))
    }

    /// The happy-path test of a function.
    pub fn generate_happy_path_test(
        &self,
        symbol: &crate::analyzer::CodeSymbol,
        func_code: &str,
        language: Language,
        framework: TestFramework,
    ) -> (r: GeneratedTest)
        ensures
            r.model() == happy_test(symbol.name@, func_code@, language, framework),
    {
        let name = symbol.name.as_str();
        let t = test_name(self, name, "_basic");
        let inputs = self.infer_test_inputs(func_code, language);
        let expected = self.infer_expected_output(func_code, language);
        let code = self.generate_test_code(
            t.as_str(),
            name,
            language,
            framework,
            TestType::Unit,
            inputs.as_str(),
            expected.as_str(),
        );
        GeneratedTest {
            name: t,
            test_type: TestType::Unit,
            description: concat2("Test basic functionality of ", name),
            code,
            setup: None,
            teardown: None,
            assertion_count: 1,
            tags: tags("unit"),
            confidence: 80,
        }
    }

    /// The edge-case tests of a function: for its first three edge cases.
    pub fn generate_edge_case_tests(
        &self,
        symbol: &crate::analyzer::CodeSymbol,
        func_code: &str,
        language: Language,
        framework: TestFramework,
    ) -> (r: Vec<GeneratedTest>)
        ensures
            test_models(r@) == edge_tests(symbol.name@, func_code@, language, framework),
    {
        let name = symbol.name.as_str();
        let cases = self.detect_edge_cases(func_code, language);
        let ghost cv = triple_views(cases@);
        let n: usize = if cases.len() < 3 { cases.len() } else { 3 };
        let mut tests: Vec<GeneratedTest> = Vec::new();
        let mut i: usize = 0;
        while i < n
            invariant
                i <= n,
                n <= cases.len(),
                n == (if cases@.len() < 3 { cases@.len() as int } else { 3 }),
                cv == triple_views(cases@),
                cv == edge_cases_of(func_code@, language),
                test_models(tests@) == cv.take(i as int).map_values(
                    |c: (Seq<char>, Seq<char>, Seq<char>)| edge_test(name@, language, framework, c),
                ),
            decreases n - i,
        {
            let (case_name, inputs, expected) = (&cases[i].0, &cases[i].1, &cases[i].2);
            let mut suffix = chars_of("_");
            extend_str(&mut suffix, case_name.as_str());
            let sfx = string_from_chars(&suffix);
            let t = test_name(self, name, sfx.as_str());
            let code = self.generate_test_code(
                t.as_str(),
                name,
                language,
                framework,
                TestType::EdgeCase,
                inputs.as_str(),
                expected.as_str(),
            );
            let mut d = chars_of("Test ");
            extend_str(&mut d, name);
            extend_str(&mut d, " with edge case: ");
            extend_str(&mut d, case_name.as_str());
            let test = GeneratedTest {
                name: t,
                test_type: TestType::EdgeCase,
                description: string_from_chars(&d),
                code,
                setup: None,
                teardown: None,
                assertion_count: 1,
                tags: tags("edge_case"),
                confidence: 70,
            };
            let ghost o = test_models(tests@);
            tests.push(test);
            assert(cv[i as int] == (cases@[i as int].0@, cases@[i as int].1@, cases@[i as int].2@));
            assert(test.model() == edge_test(name@, language, framework, cv[i as int]));
            assert(test_models(tests@) =~= o.push(test.model()));
            assert(cv.take(i + 1).map_values(
                |c: (Seq<char>, Seq<char>, Seq<char>)| edge_test(name@, language, framework, c),
            ) =~= cv.take(i as int).map_values(
                |c: (Seq<char>, Seq<char>, Seq<char>)| edge_test(name@, language, framework, c),
            ).push(edge_test(name@, language, framework, cv[i as int])));
            i += 1;
        }
        tests
    }

    /// The error-handling test of a function that can fail.
    pub fn generate_error_tests(
        &self,
        symbol: &crate::analyzer::CodeSymbol,
        func_code: &str,
        language: Language,
        framework: TestFramework,
    ) -> (r: Vec<GeneratedTest>)
        ensures
            test_models(r@) == error_tests(symbol.name@, func_code@, language, framework),
    {
        let c = chars_of(func_code);
        let can = match language {
            Language::Rust => has_lit(&c, "Result<") || has_lit(&c, "Option<"),
            Language::Python => has_lit(&c, "raise ") || has_lit(&c, "except"),
            Language::JavaScript | Language::TypeScript => has_lit(&c, "throw ") || has_lit(&c, "catch"),
            Language::Go => has_lit(&c, "error") || has_lit(&c, "err !="),
            Language::Java => has_lit(&c, "throws ") || has_lit(&c, "catch"),
            _ => false,
        };
        let mut tests: Vec<GeneratedTest> = Vec::new();
        if !can {
            assert(test_models(tests@) =~= seq![]);
            return tests;
        }
        let name = symbol.name.as_str();
        let t = test_name(self, name, "_error_handling");
        let code = self.generate_error_test_code(t.as_str(), name, language, framework);
        let test = GeneratedTest {
            name: t,
            test_type: TestType::ErrorHandling,
            description: concat2("Test error handling in ", name),
            code,
            setup: None,
            teardown: None,
            assertion_count: 1,
            tags: tags("error"),
            confidence: 65,
        };
        tests.push(test);
        assert(test_models(tests@) =~= seq![test.model()]);
        tests
    }

    /// The property-based test of a function, where there is one.
    pub fn generate_property_test(
        &self,
        symbol: &crate::analyzer::CodeSymbol,
        language: Language,
        framework: TestFramework,
    ) -> (r: Option<GeneratedTest>)
        ensures
            match r {
                Some(t) => property_tests(symbol.name@, language, framework) == seq![t.model()],
                None => property_tests(symbol.name@, language, framework) == Seq::<TestModel>::empty(),
            },
    {
        let name = symbol.name.as_str();
        let t = test_name(self, name, "_property");
        match self.property_code(t.as_str(), name, language, framework) {
            None => {
                assert(property_tests(symbol.name@, language, framework) =~= Seq::<TestModel>::empty());
                None
            },
            Some(code) => {
                let mut tg: Vec<String> = Vec::new();
                tg.push(crate::text::owned("property"));
                tg.push(crate::text::owned("fuzz"));
                assert(crate::text::string_views(tg@) =~= seq!["property"@, "fuzz"@]);
                let test = GeneratedTest {
                    name: t,
                    test_type: TestType::Property,
                    description: concat2("Property-based test for ", name),
                    code,
                    setup: None,
                    teardown: None,
                    assertion_count: 1,
                    tags: tg,
                    confidence: 60,
                };
                assert(property_tests(symbol.name@, language, framework) =~= seq![test.model()]);
                Some(test)
            },
        }
    }

    /// The tests of a function, at most the configured maximum.
    pub fn generate_tests_for_symbol(
        &self,
        symbol: &crate::analyzer::CodeSymbol,
        ls: &[Vec<char>],
        language: Language,
        framework: TestFramework,
    ) -> (r: Vec<GeneratedTest>)
        requires
            crate::refactor::range_ok(views(ls@), symbol.start_line, symbol.end_line),
        ensures
            test_models(r@) == symbol_tests(
                self.spec_config(),
                symbol.name@,
                crate::refactor::code_range(views(ls@), symbol.start_line, symbol.end_line),
                language,
                framework,
            ),
    {
        let func_code = self.get_function_code(ls, symbol);
        let code = func_code.as_str();
        let max = self.config.max_tests_per_function;
        let mut tests: Vec<GeneratedTest> = Vec::new();
        tests.push(self.generate_happy_path_test(symbol, code, language, framework));
        let ghost t0 = test_models(tests@);
        if self.config.include_edge_cases && tests.len() < max {
            let mut more = self.generate_edge_case_tests(symbol, code, language, framework);
            tests.append(&mut more);
        }
        let ghost t1 = test_models(tests@);
        if self.config.include_error_tests && tests.len() < max {
            let mut more = self.generate_error_tests(symbol, code, language, framework);
            tests.append(&mut more);
        }
        let ghost t2 = test_models(tests@);
        if self.config.include_property_tests && tests.len() < max {
            match self.generate_property_test(symbol, language, framework) {
                Some(p) => {
                    tests.push(p);
                },
                None => {},
            }
        }
        let ghost t3 = test_models(tests@);
        tests.truncate(max);
        assert(test_models(tests@) =~= symbol_tests(
            self.spec_config(),
            symbol.name@,
            func_code@,
            language,
            framework,
        ));
        tests
    }

    /// The code of a symbol's lines.
    pub fn get_function_code(&self, ls: &[Vec<char>], symbol: &crate::analyzer::CodeSymbol) -> (r: String)
        requires
            crate::refactor::range_ok(views(ls@), symbol.start_line, symbol.end_line),
        ensures
            r@ == crate::refactor::code_range(views(ls@), symbol.start_line, symbol.end_line),
    {
        let engine = crate::refactor::RefactoringEngine::new();
        engine.get_code_range(ls, symbol.start_line, symbol.end_line)
    }
}

// ─── The suite ───────────────────────────────────────────────────────────────

/// The model of a test suite.
pub struct SuiteModel {
    pub name: Seq<char>,
    pub target_file: Seq<char>,
    pub test_file: Seq<char>,
    pub framework: TestFramework,
    pub language: Language,
    pub imports: Seq<Seq<char>>,
    pub tests: Seq<TestModel>,
    pub shared_setup: Option<Seq<char>>,
    pub shared_teardown: Option<Seq<char>>,
    pub full_content: Seq<char>,
}

impl GeneratedTestSuite {
    /// The model of this suite.
    pub open spec fn model(&self) -> SuiteModel {
        SuiteModel {
            name: self.name@,
            target_file: self.target_file@,
            test_file: self.test_file@,
            framework: self.framework,
            language: self.language,
            imports: crate::text::string_views(self.imports@),
            tests: test_models(self.tests@),
            shared_setup: crate::analyzer::opt_view(self.shared_setup),
            shared_teardown: crate::analyzer::opt_view(self.shared_teardown),
            full_content: self.full_content@,
        }
    }
}

/// The framework in use: the configured one, or the language's default.
pub open spec fn framework_for(cfg: TestGenConfig, lang: Language) -> TestFramework {
    match cfg.framework {
        Some(f) => f,
        None => default_framework(lang),
    }
}

/// The suite generated for a file: the tests of its tested symbols, the
/// imports and setup of the framework, the test file's path and content.
pub open spec fn suite_of(
    cfg: TestGenConfig,
    lang: Language,
    path: Seq<char>,
    syms: Seq<crate::analyzer::SymbolModel>,
    content: Seq<char>,
) -> SuiteModel {
    let fw = framework_for(cfg, lang);
    let tests = tests_of(cfg, syms, lines(content), lang, fw);
    let imports = imports_for(module_of(path), lang, fw);
    let setup = setup_for(lang, fw);
    SuiteModel {
        name: match path_file_stem(path) {
            Some(s) => s,
            None => "tests"@,
        },
        target_file: path,
        test_file: test_file_path(crate::analyzer::opt_view(cfg.output_dir), path, lang, fw),
        framework: fw,
        language: lang,
        imports: imports,
        tests: tests,
        shared_setup: setup,
        shared_teardown: None,
        full_content: full_test_file(path, lang, fw, imports, test_codes(tests), setup),
    }
}

/// Every symbol that is tested names a well-formed range of the lines.
pub open spec fn tested_ranges_ok(
    cfg: TestGenConfig,
    syms: Seq<crate::analyzer::SymbolModel>,
    ls: Seq<Seq<char>>,
) -> bool {
    forall|i: int|
        0 <= i < syms.len() && should_test(syms[i].kind, syms[i].visibility, cfg.min_visibility)
            ==> crate::refactor::range_ok(ls, #[trigger] syms[i].start_line, syms[i].end_line)
}

impl TestGenerator {
    /// The imports of a test file for the source file.
    pub fn generate_imports(&self, source_file: &str, language: Language, framework: TestFramework) -> (r: Vec<
        String,
    >)
        ensures
            crate::text::string_views(r@) == imports_for(module_of(source_file@), language, framework),
    {
        let module = text_or(file_stem_of(source_file), "module");
        self.imports_for_module(module.as_str(), language, framework)
    }

    /// Generates the tests of a file: for each tested symbol, then the imports,
    /// setup, path and content of the test file.
    pub fn generate_tests(&self, analysis: &crate::analyzer::FileAnalysis, content: &str) -> (r:
        GeneratedTestSuite)
        requires
            tested_ranges_ok(
                self.spec_config(),
                crate::analyzer::symbol_models(analysis.symbols@),
                lines(content@),
            ),
        ensures
            r.model() == suite_of(
                self.spec_config(),
                analysis.language,
                analysis.path@,
                crate::analyzer::symbol_models(analysis.symbols@),
                content@,
            ),
    {
        let language = analysis.language;
        let framework = match self.config.framework {
            Some(f) => f,
            None => TestFramework::default_for_language(language),
        };
        let cs = chars_of(content);
        let ls = lines_of(&cs);
        let ghost lv = views(ls@);
        let ghost sy = crate::analyzer::symbol_models(analysis.symbols@);
        let mut tests: Vec<GeneratedTest> = Vec::new();
        let mut i: usize = 0;
        while i < analysis.symbols.len()
            invariant
                i <= analysis.symbols.len(),
                lv == views(ls@),
                lv == lines(content@),
                sy == crate::analyzer::symbol_models(analysis.symbols@),
                tested_ranges_ok(self.spec_config(), sy, lv),
                language == analysis.language,
                framework == framework_for(self.spec_config(), language),
                test_models(tests@) == tests_of(self.spec_config(), sy.take(i as int), lv, language, framework),
            decreases analysis.symbols.len() - i,
        {
            let symbol = &analysis.symbols[i];
            assert(sy.take(i + 1).drop_last() =~= sy.take(i as int));
            assert(sy.take(i + 1).last() == symbol.model());
            let ghost o = test_models(tests@);
            if self.should_test_symbol(symbol) {
                assert(sy[i as int] == symbol.model());
                assert(crate::refactor::range_ok(lv, sy[i as int].start_line, sy[i as int].end_line));
                let mut more = self.generate_tests_for_symbol(symbol, &ls, language, framework);
                let ghost m = test_models(more@);
                tests.append(&mut more);
                assert(test_models(tests@) =~= o + m);
            } else {
                assert(test_models(tests@) =~= o + seq![]);
            }
            i += 1;
        }
        assert(sy.take(analysis.symbols.len() as int) =~= sy);
        let path = analysis.path.as_str();
        let imports = self.generate_imports(path, language, framework);
        let shared_setup = self.generate_shared_setup(language, framework);
        let shared_teardown = self.generate_shared_teardown(language, framework);
        let test_file = self.calculate_test_file_path(path, language, framework);
        let full_content = self.generate_full_test_file(
            path,
            language,
            framework,
            &imports,
            &tests,
            &shared_setup,
            &shared_teardown,
        );
        GeneratedTestSuite {
            name: text_or(file_stem_of(path), "tests"),
            target_file: crate::text::owned(path),
            test_file,
            framework,
            language,
            imports,
            tests,
            shared_setup,
            shared_teardown,
            full_content,
        }
    }
}

/// No function gets more tests than the configured maximum; when one is
/// allowed at all, the first is the happy-path test.
pub proof fn lemma_symbol_tests_bounded(
    cfg: TestGenConfig,
    func: Seq<char>,
    code: Seq<char>,
    lang: Language,
    fw: TestFramework,
)
    ensures
        symbol_tests(cfg, func, code, lang, fw).len() <= cfg.max_tests_per_function,
        cfg.max_tests_per_function >= 1 ==> symbol_tests(cfg, func, code, lang, fw)[0] == happy_test(
            func,
            code,
            lang,
            fw,
        ),
{
    let max = cfg.max_tests_per_function;
    let t0 = seq![happy_test(func, code, lang, fw)];
    let t1 = if cfg.include_edge_cases && t0.len() < max {
        t0 + edge_tests(func, code, lang, fw)
    } else {
        t0
    };
    let t2 = if cfg.include_error_tests && t1.len() < max {
        t1 + error_tests(func, code, lang, fw)
    } else {
        t1
    };
    let t3 = if cfg.include_property_tests && t2.len() < max {
        t2 + property_tests(func, lang, fw)
    } else {
        t2
    };
    assert(t1[0] == t0[0]);
    assert(t2[0] == t0[0]);
    assert(t3[0] == t0[0]);
}

} // verus!
