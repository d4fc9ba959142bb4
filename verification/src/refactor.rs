//! Refactoring suggestions: naming conventions, duplicate code, loops that
//! could be written functionally, unused imports, and suggestions derived
//! from code smells.

use crate::analyzer::{
    brace_block_end, brace_end, lemma_brace_end_bounds, Language, SymbolKind, Visibility,
};
use crate::text::{
    char_is_lowercase, char_is_numeric, char_is_uppercase, char_lower_first, char_to_upper_string,
    char_upper, char_upper_first, chars_of, contains, extend_chars, has_char, has_lit, is_lower,
    is_numeric, is_upper, join, lower_first, parse_i64, parse_i64_spec, replace_all, replace_lit,
    split_words, starts_with, str_to_uppercase, str_upper, string_from_chars, tail_of, total_len,
    trim, trim_chars, upper_first, views, words,
};
use vstd::prelude::*;

verus! {

// ─── Types ───────────────────────────────────────────────────────────────────

/// Types of refactoring operations.
#[derive(Debug, Clone, Copy, PartialEq, Eq, Structural)]
pub enum RefactoringKind {
    /// Extract a piece of code into a new function.
    ExtractFunction,
    /// Extract a piece of code into a new method.
    ExtractMethod,
    /// Extract a variable from an expression.
    ExtractVariable,
    /// Extract a constant from a literal.
    ExtractConstant,
    /// Inline a variable or function.
    Inline,
    /// Rename a symbol.
    Rename,
    /// Move code to a different file or module.
    Move,
    /// Extract code into a new class or struct.
    ExtractClass,
    /// Extract an interface or trait from a class.
    ExtractInterface,
    /// Convert an anonymous function to a named one.
    ConvertToNamedFunction,
    /// Simplify a conditional expression.
    SimplifyConditional,
    /// Remove dead code.
    RemoveDeadCode,
    /// Replace a magic number with a constant.
    ReplaceMagicNumber,
    /// Add error handling.
    AddErrorHandling,
    /// Convert to async.
    ConvertToAsync,
    /// Apply the early return pattern.
    EarlyReturn,
    /// Split a large function.
    SplitFunction,
    /// Merge duplicate code.
    MergeDuplicates,
    /// Convert a loop to functional style.
    ConvertToFunctional,
    /// Add type annotations.
    AddTypeAnnotations,
    /// Remove unused imports.
    RemoveUnusedImports,
    /// Organize imports.
    OrganizeImports,
}

/// Confidence level of a refactoring suggestion, from lowest to highest.
#[derive(Debug, Clone, Copy, PartialEq, Eq, PartialOrd, Ord, Structural)]
pub enum Confidence {
    Low,
    Medium,
    High,
    VeryHigh,
}

/// The position of a confidence level in the order `Low < Medium < High < VeryHigh`.
pub open spec fn confidence_rank(c: Confidence) -> nat {
    match c {
        Confidence::Low => 0,
        Confidence::Medium => 1,
        Confidence::High => 2,
        Confidence::VeryHigh => 3,
    }
}

/// The position of a confidence level.
fn rank_of(c: Confidence) -> (r: u8)
    ensures
        r == confidence_rank(c),
{
    match c {
        Confidence::Low => 0,
        Confidence::Medium => 1,
        Confidence::High => 2,
        Confidence::VeryHigh => 3,
    }
}

/// Test impact assessment.
#[derive(Debug, Clone, Copy, PartialEq, Eq, Structural)]
pub enum TestImpact {
    /// No test changes.
    NoUpdates,
    /// Some tests may need updates.
    MinorUpdates,
    /// Tests will need significant updates.
    MajorUpdates,
    /// New tests needed.
    NewTestsNeeded,
}

impl Default for TestImpact {
    /// No test changes.
    fn default() -> (r: TestImpact)
        ensures
            r == TestImpact::NoUpdates,
    {
        TestImpact::NoUpdates
    }
}

/// Impact assessment of a refactoring.
#[derive(Debug, Clone, Copy, PartialEq, Eq, Structural)]
pub struct RefactoringImpact {
    /// Estimated complexity reduction (negative = increase).
    pub complexity_change: i32,
    /// Readability improvement (0-100).
    pub readability_improvement: u32,
    /// Maintainability improvement (0-100).
    pub maintainability_improvement: u32,
    /// Test coverage impact.
    pub test_impact: TestImpact,
    /// Lines of code change (negative = reduction).
    pub loc_change: i32,
}

impl Default for RefactoringImpact {
    /// No change at all.
    fn default() -> (r: RefactoringImpact)
        ensures
            r == (RefactoringImpact {
                complexity_change: 0,
                readability_improvement: 0,
                maintainability_improvement: 0,
                test_impact: TestImpact::NoUpdates,
                loc_change: 0,
            }),
    {
        RefactoringImpact {
            complexity_change: 0,
            readability_improvement: 0,
            maintainability_improvement: 0,
            test_impact: TestImpact::NoUpdates,
            loc_change: 0,
        }
    }
}

/// A refactoring suggestion.
#[derive(Debug, Clone)]
pub struct RefactoringSuggestion {
    /// Type of refactoring.
    pub kind: RefactoringKind,
    /// Confidence level.
    pub confidence: Confidence,
    /// Human-readable description.
    pub description: String,
    /// Detailed rationale.
    pub rationale: String,
    /// Affected file.
    pub file: String,
    /// Start line.
    pub start_line: u32,
    /// End line.
    pub end_line: u32,
    /// Original code snippet.
    pub original_code: String,
    /// Suggested refactored code.
    pub suggested_code: String,
    /// Estimated impact.
    pub impact: RefactoringImpact,
    /// Prerequisites (other refactorings that should be done first).
    pub prerequisites: Vec<String>,
    /// Breaking changes (if any).
    pub breaking_changes: Vec<String>,
}

/// The model of a refactoring suggestion.
pub struct SuggestionModel {
    pub kind: RefactoringKind,
    pub confidence: Confidence,
    pub description: Seq<char>,
    pub rationale: Seq<char>,
    pub file: Seq<char>,
    pub start_line: u32,
    pub end_line: u32,
    pub original_code: Seq<char>,
    pub suggested_code: Seq<char>,
    pub impact: RefactoringImpact,
    pub prerequisites: Seq<Seq<char>>,
    pub breaking_changes: Seq<Seq<char>>,
}

impl RefactoringSuggestion {
    /// The model of this suggestion.
    pub open spec fn model(&self) -> SuggestionModel {
        SuggestionModel {
            kind: self.kind,
            confidence: self.confidence,
            description: self.description@,
            rationale: self.rationale@,
            file: self.file@,
            start_line: self.start_line,
            end_line: self.end_line,
            original_code: self.original_code@,
            suggested_code: self.suggested_code@,
            impact: self.impact,
            prerequisites: crate::text::string_views(self.prerequisites@),
            breaking_changes: crate::text::string_views(self.breaking_changes@),
        }
    }
}

/// Models of a sequence of suggestions.
pub open spec fn suggestion_models(v: Seq<RefactoringSuggestion>) -> Seq<SuggestionModel> {
    v.map_values(|s: RefactoringSuggestion| s.model())
}

/// A code change.
#[derive(Debug, Clone)]
pub struct CodeEdit {
    /// File path.
    pub file: String,
    /// Start line (1-indexed).
    pub start_line: u32,
    /// Start column (1-indexed).
    pub start_column: u32,
    /// End line (1-indexed).
    pub end_line: u32,
    /// End column (1-indexed).
    pub end_column: u32,
    /// New text to insert.
    pub new_text: String,
}

/// Result of applying a refactoring.
#[derive(Debug, Clone)]
pub struct RefactoringResult {
    /// Whether the refactoring was successful.
    pub success: bool,
    /// Edits to apply.
    pub edits: Vec<CodeEdit>,
    /// New files to create (path and content).
    pub new_files: Vec<(String, String)>,
    /// Files to delete.
    pub delete_files: Vec<String>,
    /// Warning messages.
    pub warnings: Vec<String>,
    /// Error message if failed.
    pub error: Option<String>,
}

/// Formatting style preferences.
#[derive(Debug, Clone, Copy, PartialEq, Eq, Structural)]
pub struct FormattingStyle {
    /// Indentation (spaces).
    pub indent_size: usize,
    /// Use tabs instead of spaces.
    pub use_tabs: bool,
    /// Max line length.
    pub max_line_length: usize,
    /// Trailing commas.
    pub trailing_commas: bool,
    /// Semicolons (for JS/TS).
    pub semicolons: bool,
    /// Single quotes (for JS/TS).
    pub single_quotes: bool,
}

impl Default for FormattingStyle {
    /// Four-space indentation, lines of at most 100 characters, trailing commas
    /// and semicolons, double quotes.
    fn default() -> (r: FormattingStyle)
        ensures
            r == (FormattingStyle {
                indent_size: 4,
                use_tabs: false,
                max_line_length: 100,
                trailing_commas: true,
                semicolons: true,
                single_quotes: false,
            }),
    {
        FormattingStyle {
            indent_size: 4,
            use_tabs: false,
            max_line_length: 100,
            trailing_commas: true,
            semicolons: true,
            single_quotes: false,
        }
    }
}

/// Configuration for the refactoring engine.
#[derive(Debug, Clone, Copy, PartialEq, Eq, Structural)]
pub struct RefactoringConfig {
    /// Minimum confidence of a suggestion derived from a code smell.
    pub min_confidence: Confidence,
    /// Maximum suggestions per file.
    pub max_suggestions_per_file: usize,
    /// Enable breaking changes.
    pub allow_breaking_changes: bool,
    /// Preserve comments.
    pub preserve_comments: bool,
    /// Auto-fix imports.
    pub auto_fix_imports: bool,
    /// Formatting style.
    pub formatting_style: FormattingStyle,
}

impl Default for RefactoringConfig {
    /// Medium minimum confidence, at most ten suggestions per file.
    fn default() -> (r: RefactoringConfig)
        ensures
            r.min_confidence == Confidence::Medium,
            r.max_suggestions_per_file == 10,
            !r.allow_breaking_changes,
            r.preserve_comments,
            r.auto_fix_imports,
            r.formatting_style.indent_size == 4,
            r.formatting_style.max_line_length == 100,
    {
        RefactoringConfig {
            min_confidence: Confidence::Medium,
            max_suggestions_per_file: 10,
            allow_breaking_changes: false,
            preserve_comments: true,
            auto_fix_imports: true,
            formatting_style: FormattingStyle::default(),
        }
    }
}

/// The refactoring engine.
pub struct RefactoringEngine {
    config: RefactoringConfig,
}

impl RefactoringEngine {
    /// The engine's configuration.
    pub closed spec fn spec_config(&self) -> RefactoringConfig {
        self.config
    }

    /// An engine with the default configuration.
    pub fn new() -> (r: RefactoringEngine)
        ensures
            r.spec_config().min_confidence == Confidence::Medium,
            r.spec_config().max_suggestions_per_file == 10,
    {
        RefactoringEngine { config: RefactoringConfig::default() }
    }

    /// An engine with the given configuration.
    pub fn with_config(config: RefactoringConfig) -> (r: RefactoringEngine)
        ensures
            r.spec_config() == config,
    {
        RefactoringEngine { config }
    }
}

impl Default for RefactoringEngine {
    /// An engine with the default configuration.
    fn default() -> (r: RefactoringEngine)
        ensures
            r.spec_config().min_confidence == Confidence::Medium,
            r.spec_config().max_suggestions_per_file == 10,
    {
        RefactoringEngine::new()
    }
}

// ─── Naming conventions ──────────────────────────────────────────────────────

/// A character allowed in snake_case.
pub open spec fn snake_char(c: char) -> bool {
    is_lower(c) || is_numeric(c) || c == '_'
}

/// A character allowed in SCREAMING_SNAKE_CASE.
pub open spec fn screaming_char(c: char) -> bool {
    is_upper(c) || is_numeric(c) || c == '_'
}

/// Every character is lowercase, numeric or an underscore.
pub open spec fn is_snake(s: Seq<char>) -> bool {
    forall|i: int| 0 <= i < s.len() ==> snake_char(#[trigger] s[i])
}

/// Every character is uppercase, numeric or an underscore.
pub open spec fn is_screaming(s: Seq<char>) -> bool {
    forall|i: int| 0 <= i < s.len() ==> screaming_char(#[trigger] s[i])
}

/// Non-empty, starting lowercase, without underscores.
pub open spec fn is_camel(s: Seq<char>) -> bool {
    s.len() > 0 && is_lower(s[0]) && !s.contains('_')
}

/// Non-empty, starting uppercase, without underscores.
pub open spec fn is_pascal(s: Seq<char>) -> bool {
    s.len() > 0 && is_upper(s[0]) && !s.contains('_')
}

/// snake_case of `s`: every character lowercased, an underscore before every
/// uppercase character but the first.
pub open spec fn snake_of(s: Seq<char>) -> Seq<char>
    decreases s.len(),
{
    if s.len() == 0 {
        seq![]
    } else {
        let c = s.last();
        snake_of(s.drop_last()) + if is_upper(c) && s.len() > 1 {
            seq!['_', lower_first(c)]
        } else {
            seq![lower_first(c)]
        }
    }
}

/// camelCase of `s` so far, and whether the next character is to be
/// capitalized: underscores are dropped and capitalize what follows, the
/// first character is lowercased, the others kept.
pub open spec fn camel_state(s: Seq<char>) -> (Seq<char>, bool)
    decreases s.len(),
{
    if s.len() == 0 {
        (seq![], false)
    } else {
        let prev = camel_state(s.drop_last());
        let c = s.last();
        if c == '_' {
            (prev.0, true)
        } else if prev.1 {
            (prev.0.push(upper_first(c)), false)
        } else if s.len() == 1 {
            (prev.0.push(lower_first(c)), false)
        } else {
            (prev.0.push(c), false)
        }
    }
}

/// camelCase of `s`.
pub open spec fn camel_of(s: Seq<char>) -> Seq<char> {
    camel_state(s).0
}

/// A lowercase snake_case name: ASCII lowercase letters in words joined by
/// single underscores, with no underscore at either end.
pub open spec fn is_lower_snake_name(s: Seq<char>) -> bool {
    &&& s.len() > 0
    &&& forall|i: int| 0 <= i < s.len() ==> crate::text::is_ascii_lower(#[trigger] s[i]) || s[i] == '_'
    &&& s[0] != '_'
    &&& s.last() != '_'
    &&& forall|i: int| 0 <= i < s.len() - 1 && #[trigger] s[i] == '_' ==> s[i + 1] != '_'
}

/// The camelCase of each prefix of a lowercase snake_case name: whether a
/// capital is pending after an underscore, and that its snake_case is the
/// prefix (without a trailing underscore).
proof fn lemma_camel_prefix(s: Seq<char>, n: int)
    requires
        is_lower_snake_name(s),
        1 <= n <= s.len(),
    ensures
        camel_state(s.take(n)).1 == (s[n - 1] == '_'),
        camel_state(s.take(n)).0.len() > 0,
        snake_of(camel_state(s.take(n)).0) == if s[n - 1] == '_' {
            s.take(n - 1)
        } else {
            s.take(n)
        },
    decreases n,
{
    let p = s.take(n);
    let x = s[n - 1];
    assert(p.drop_last() =~= s.take(n - 1));
    assert(p.last() == x);
    if x != '_' {
        crate::text::lemma_ascii_case(x);
    }
    if n == 1 {
        assert(s.take(0) =~= Seq::<char>::empty());
        assert(crate::text::lower_first(x) == x);
        assert(!crate::text::is_upper(x));
        let c = seq![x];
        assert(c.drop_last() =~= Seq::<char>::empty());
        assert(snake_of(Seq::<char>::empty()) == Seq::<char>::empty());
        assert(snake_of(c) == seq![x]);
        assert(snake_of(c) =~= s.take(1));
    } else {
        lemma_camel_prefix(s, n - 1);
        let prev = camel_state(s.take(n - 1));
        if x == '_' {
            assert(s[n - 2] != '_');
        } else if prev.1 {
            let u = crate::text::upper_first(x);
            let c = prev.0.push(u);
            assert(c.drop_last() =~= prev.0);
            assert(s.take(n - 2).push('_').push(x) =~= s.take(n)) by {
                assert(s.take(n - 1) =~= s.take(n - 2).push(s[n - 2]));
            }
        } else {
            let c = prev.0.push(x);
            assert(c.drop_last() =~= prev.0);
            assert(s.take(n - 1).push(x) =~= s.take(n));
        }
    }
}

/// snake_case undoes camelCase on a lowercase snake_case name.
pub proof fn lemma_snake_of_camel(s: Seq<char>)
    requires
        is_lower_snake_name(s),
    ensures
        snake_of(camel_of(s)) == s,
{
    lemma_camel_prefix(s, s.len() as int);
    assert(s.take(s.len() as int) =~= s);
}

/// PascalCase of `s`: its camelCase with the first character fully uppercased.
pub open spec fn pascal_of(s: Seq<char>) -> Seq<char> {
    let c = camel_of(s);
    if c.len() == 0 {
        seq![]
    } else {
        char_upper(c[0]) + c.drop_first()
    }
}

/// SCREAMING_SNAKE_CASE of `s`: its snake_case uppercased.
pub open spec fn screaming_of(s: Seq<char>) -> Seq<char> {
    str_upper(snake_of(s))
}

impl RefactoringEngine {
    /// Whether `s` is snake_case.
    pub fn is_snake_case(&self, s: &str) -> (r: bool)
        ensures
            r == is_snake(s@),
    {
        let cs = chars_of(s);
        let mut i: usize = 0;
        while i < cs.len()
            invariant
                i <= cs.len(),
                cs@ == s@,
                forall|j: int| 0 <= j < i ==> snake_char(#[trigger] cs@[j]),
            decreases cs.len() - i,
        {
            let c = cs[i];
            if !(char_is_lowercase(c) || char_is_numeric(c) || c == '_') {
                assert(!snake_char(cs@[i as int]));
                return false;
            }
            i += 1;
        }
        true
    }

    /// Whether `s` is camelCase.
    pub fn is_camel_case(&self, s: &str) -> (r: bool)
        ensures
            r == is_camel(s@),
    {
        let cs = chars_of(s);
        cs.len() > 0 && char_is_lowercase(cs[0]) && !has_char(&cs, '_')
    }

    /// Whether `s` is PascalCase.
    pub fn is_pascal_case(&self, s: &str) -> (r: bool)
        ensures
            r == is_pascal(s@),
    {
        let cs = chars_of(s);
        cs.len() > 0 && char_is_uppercase(cs[0]) && !has_char(&cs, '_')
    }

    /// Whether `s` is SCREAMING_SNAKE_CASE.
    pub fn is_screaming_snake_case(&self, s: &str) -> (r: bool)
        ensures
            r == is_screaming(s@),
    {
        let cs = chars_of(s);
        let mut i: usize = 0;
        while i < cs.len()
            invariant
                i <= cs.len(),
                cs@ == s@,
                forall|j: int| 0 <= j < i ==> screaming_char(#[trigger] cs@[j]),
            decreases cs.len() - i,
        {
            let c = cs[i];
            if !(char_is_uppercase(c) || char_is_numeric(c) || c == '_') {
                assert(!screaming_char(cs@[i as int]));
                return false;
            }
            i += 1;
        }
        true
    }

    /// Converts to snake_case.
    pub fn to_snake_case(&self, s: &str) -> (r: String)
        ensures
            r@ == snake_of(s@),
    {
        let cs = chars_of(s);
        let mut out: Vec<char> = Vec::new();
        let mut i: usize = 0;
        while i < cs.len()
            invariant
                i <= cs.len(),
                cs@ == s@,
                out@ == snake_of(cs@.take(i as int)),
            decreases cs.len() - i,
        {
            assert(cs@.take(i + 1).drop_last() =~= cs@.take(i as int));
            let c = cs[i];
            let ghost o = out@;
            if char_is_uppercase(c) && i > 0 {
                out.push('_');
            }
            out.push(char_lower_first(c));
            assert(out@ =~= snake_of(cs@.take(i + 1)));
            i += 1;
        }
        assert(cs@.take(cs.len() as int) =~= cs@);
        string_from_chars(&out)
    }

    /// Converts to camelCase.
    pub fn to_camel_case(&self, s: &str) -> (r: String)
        ensures
            r@ == camel_of(s@),
    {
        let cs = chars_of(s);
        let mut out: Vec<char> = Vec::new();
        let mut capitalize_next = false;
        let mut i: usize = 0;
        while i < cs.len()
            invariant
                i <= cs.len(),
                cs@ == s@,
                (out@, capitalize_next) == camel_state(cs@.take(i as int)),
            decreases cs.len() - i,
        {
            assert(cs@.take(i + 1).drop_last() =~= cs@.take(i as int));
            let c = cs[i];
            if c == '_' {
                capitalize_next = true;
            } else if capitalize_next {
                out.push(char_upper_first(c));
                capitalize_next = false;
            } else if i == 0 {
                out.push(char_lower_first(c));
            } else {
                out.push(c);
            }
            i += 1;
        }
        assert(cs@.take(cs.len() as int) =~= cs@);
        string_from_chars(&out)
    }

    /// Converts to PascalCase.
    pub fn to_pascal_case(&self, s: &str) -> (r: String)
        ensures
            r@ == pascal_of(s@),
    {
        let camel = self.to_camel_case(s);
        let cs = chars_of(camel.as_str());
        if cs.len() == 0 {
            return String::new();
        }
        let first = char_to_upper_string(cs[0]);
        let mut out = chars_of(first.as_str());
        extend_chars(&mut out, &tail_of(&cs, 1));
        assert(cs@.skip(1) =~= cs@.drop_first());
        string_from_chars(&out)
    }

    /// Converts to SCREAMING_SNAKE_CASE.
    pub fn to_screaming_snake_case(&self, s: &str) -> (r: String)
        ensures
            r@ == screaming_of(s@),
    {
        let snake = self.to_snake_case(s);
        str_to_uppercase(snake.as_str())
    }
}

// ─── Code ranges and generated text ──────────────────────────────────────────

/// Index of the first line of the 1-based range starting at `start`.
pub open spec fn range_start(start: u32) -> int {
    if start == 0 {
        0
    } else {
        start - 1
    }
}

/// Index after the last line of the range ending at the 1-based `end`.
pub open spec fn range_end(n: int, end: u32) -> int {
    if end < n {
        end as int
    } else {
        n
    }
}

/// The range from `start` to `end` is well-formed on these lines.
pub open spec fn range_ok(ls: Seq<Seq<char>>, start: u32, end: u32) -> bool {
    range_start(start) <= range_end(ls.len() as int, end)
}

/// The lines `start..=end` (1-based, `end` clamped to the last line), joined
/// by newlines.
pub open spec fn code_range(ls: Seq<Seq<char>>, start: u32, end: u32) -> Seq<char> {
    join(ls.subrange(range_start(start), range_end(ls.len() as int, end)), seq!['\n'])
}

/// Splitting hint for Rust.
pub const SPLIT_HINT_RUST: &'static str = "// Consider splitting into:\n\
     // fn process_input(...) -> Result<...> { ... }\n\
     // fn validate_data(...) -> Result<...> { ... }\n\
     // fn transform_output(...) -> Result<...> { ... }\n\n\
     // Original function would become:\n\
     // pub fn main_function(...) -> Result<...> {\n\
     //     let input = process_input(...)?;\n\
     //     let validated = validate_data(input)?;\n\
     //     transform_output(validated)\n\
     // }";

/// Splitting hint for Python.
pub const SPLIT_HINT_PYTHON: &'static str = "# Consider splitting into:\n\
     # def process_input(...): ...\n\
     # def validate_data(...): ...\n\
     # def transform_output(...): ...\n\n\
     # Original function would call these helpers";

/// Splitting hint for JavaScript and TypeScript.
pub const SPLIT_HINT_JS: &'static str = "// Consider splitting into:\n\
     // function processInput(...) { ... }\n\
     // function validateData(...) { ... }\n\
     // function transformOutput(...) { ... }\n\n\
     // Original function would orchestrate these";

/// Splitting hint for other languages.
pub const SPLIT_HINT_OTHER: &'static str =
    "// Consider splitting this function into smaller, focused functions";

/// Early-return hint for Rust.
pub const EARLY_RETURN_RUST: &'static str = "// Instead of:\n\
     // if condition {\n\
     //     if another {\n\
     //         // deeply nested\n\
     //     }\n\
     // }\n\n\
     // Use:\n\
     // if !condition { return early_value; }\n\
     // if !another { return early_value; }\n\
     // // main logic here";

/// Early-return hint for Python.
pub const EARLY_RETURN_PYTHON: &'static str = "# Instead of:\n\
     # if condition:\n\
     #     if another:\n\
     #         # deeply nested\n\n\
     # Use:\n\
     # if not condition:\n\
     #     return early_value\n\
     # if not another:\n\
     #     return early_value\n\
     # # main logic here";

/// Early-return hint for other languages.
pub const EARLY_RETURN_OTHER: &'static str = "// Apply early return pattern to reduce nesting";

/// Documentation template for Rust, put before the code.
pub const DOC_RUST: &'static str = "/// Brief description of what this function does.\n\
     ///\n\
     /// # Arguments\n\
     ///\n\
     /// * `param` - Description of parameter\n\
     ///\n\
     /// # Returns\n\
     ///\n\
     /// Description of return value\n\
     ///\n\
     /// # Examples\n\
     ///\n\
     /// ```\n\
     /// // Example usage\n\
     /// ```\n";

/// Documentation template for Python, put before the code.
pub const DOC_PYTHON: &'static str = "def function_name(params):\n\
     \"\"\"Brief description.\n\
     \n\
     Args:\n\
         param: Description of parameter\n\
     \n\
     Returns:\n\
         Description of return value\n\
     \n\
     Examples:\n\
         >>> example_usage()\n\
     \"\"\"\n";

/// Documentation template for JavaScript and TypeScript, put before the code.
pub const DOC_JS: &'static str = "/**\n\
     * Brief description.\n\
     *\n\
     * @param param - Description of parameter\n\
     * @returns Description of return value\n\
     *\n\
     * @example\n\
     * // Example usage\n\
     */\n";

/// Documentation template for other languages, put before the code.
pub const DOC_OTHER: &'static str = "// Add documentation\n";

/// The splitting hint of a language.
pub open spec fn split_hint(lang: Language) -> Seq<char> {
    match lang {
        Language::Rust => SPLIT_HINT_RUST@,
        Language::Python => SPLIT_HINT_PYTHON@,
        Language::JavaScript | Language::TypeScript => SPLIT_HINT_JS@,
        _ => SPLIT_HINT_OTHER@,
    }
}

/// The early-return hint of a language.
pub open spec fn early_return_hint(lang: Language) -> Seq<char> {
    match lang {
        Language::Rust => EARLY_RETURN_RUST@,
        Language::Python => EARLY_RETURN_PYTHON@,
        _ => EARLY_RETURN_OTHER@,
    }
}

/// The documentation template of a language followed by the code.
pub open spec fn documented(code: Seq<char>, lang: Language) -> Seq<char> {
    match lang {
        Language::Rust => DOC_RUST@ + code,
        Language::Python => DOC_PYTHON@ + code,
        Language::JavaScript | Language::TypeScript => DOC_JS@ + code,
        _ => DOC_OTHER@ + code,
    }
}

/// The first word that parses as an `i64`.
pub open spec fn first_number(ws: Seq<Seq<char>>) -> Option<Seq<char>>
    decreases ws.len(),
{
    if ws.len() == 0 {
        None
    } else if parse_i64_spec(ws[0]) is Some {
        Some(ws[0])
    } else {
        first_number(ws.drop_first())
    }
}

/// The number named by a constant replacement: the first whitespace-separated
/// word of the code that is an integer, or `42`.
pub open spec fn number_in(code: Seq<char>) -> Seq<char> {
    match first_number(words(code)) {
        Some(w) => w,
        None => "42"@,
    }
}

/// A named-constant definition for the number in the code.
pub open spec fn constant_replacement(code: Seq<char>, lang: Language) -> Seq<char> {
    let n = number_in(code);
    match lang {
        Language::Rust => "const MEANINGFUL_NAME: i32 = "@ + n + ";\n// Then use MEANINGFUL_NAME instead"@,
        Language::Python => "MEANINGFUL_NAME = "@ + n + "\n# Then use MEANINGFUL_NAME instead"@,
        Language::JavaScript | Language::TypeScript => "const MEANINGFUL_NAME = "@ + n
            + ";\n// Then use MEANINGFUL_NAME instead"@,
        _ => "// Define constant for "@ + n,
    }
}

impl RefactoringEngine {
    /// The lines `start..=end` (1-based, `end` clamped to the last line),
    /// joined by newlines.
    pub fn get_code_range(&self, ls: &[Vec<char>], start: u32, end: u32) -> (r: String)
        requires
            range_ok(views(ls@), start, end),
        ensures
            r@ == code_range(views(ls@), start, end),
    {
        let s: usize = if start == 0 { 0 } else { (start - 1) as usize };
        let e: usize = if (end as usize) < ls.len() { end as usize } else { ls.len() };
        let mut part: Vec<Vec<char>> = Vec::new();
        let mut k: usize = s;
        while k < e
            invariant
                s <= k <= e,
                e <= ls.len(),
                views(part@) == views(ls@).subrange(s as int, k as int),
            decreases e - k,
        {
            let ghost p = views(part@);
            part.push(tail_of(&ls[k], 0));
            assert(ls@[k as int]@.skip(0) =~= ls@[k as int]@);
            assert(views(part@) =~= p.push(ls@[k as int]@));
            assert(views(ls@).subrange(s as int, k + 1) =~= views(ls@).subrange(s as int, k as int).push(
                ls@[k as int]@,
            ));
            k += 1;
        }
        let sep = vec!['\n'];
        let joined = crate::text::join_chars(&part, &sep);
        assert(sep@ =~= seq!['\n']);
        string_from_chars(&joined)
    }

    /// A hint on splitting a long function.
    pub fn generate_split_function(&self, _code: &str, language: Language) -> (r: String)
        ensures
            r@ == split_hint(language),
    {
        match language {
            Language::Rust => crate::text::owned(SPLIT_HINT_RUST),
            Language::Python => crate::text::owned(SPLIT_HINT_PYTHON),
            Language::JavaScript | Language::TypeScript => crate::text::owned(SPLIT_HINT_JS),
            _ => crate::text::owned(SPLIT_HINT_OTHER),
        }
    }

    /// A hint on the early-return pattern.
    pub fn generate_early_return(&self, _code: &str, language: Language) -> (r: String)
        ensures
            r@ == early_return_hint(language),
    {
        match language {
            Language::Rust => crate::text::owned(EARLY_RETURN_RUST),
            Language::Python => crate::text::owned(EARLY_RETURN_PYTHON),
            _ => crate::text::owned(EARLY_RETURN_OTHER),
        }
    }

    /// A named-constant definition for the first integer in the code.
    pub fn generate_constant_replacement(&self, code: &str, language: Language) -> (r: String)
        ensures
            r@ == constant_replacement(code@, language),
    {
        let cs = chars_of(code);
        let ws = split_words(&cs);
        let mut number: Vec<char> = crate::text::buf("42");
        let mut i: usize = 0;
        let ghost wv = views(ws@);
        assert(wv.skip(0) =~= wv);
        while i < ws.len()
            invariant
                i <= ws.len(),
                wv == views(ws@),
                wv == words(code@),
                first_number(wv) == first_number(wv.skip(i as int)),
                number@ == "42"@,
            decreases ws.len() - i,
        {
            assert(wv.skip(i as int)[0] == ws@[i as int]@);
            assert(wv.skip(i as int).drop_first() =~= wv.skip(i + 1));
            if parse_i64(&ws[i]).is_some() {
                number = tail_of(&ws[i], 0);
                assert(ws@[i as int]@.skip(0) =~= ws@[i as int]@);
                assert(number@ == number_in(code@));
                return self.constant_text(&number, language);
            }
            i += 1;
        }
        assert(wv.skip(i as int) =~= seq![]);
        self.constant_text(&number, language)
    }

    /// The constant definition text for a number.
    fn constant_text(&self, number: &[char], language: Language) -> (r: String)
        ensures
            r@ == match language {
                Language::Rust => "const MEANINGFUL_NAME: i32 = "@ + number@
                    + ";\n// Then use MEANINGFUL_NAME instead"@,
                Language::Python => "MEANINGFUL_NAME = "@ + number@ + "\n# Then use MEANINGFUL_NAME instead"@,
                Language::JavaScript | Language::TypeScript => "const MEANINGFUL_NAME = "@ + number@
                    + ";\n// Then use MEANINGFUL_NAME instead"@,
                _ => "// Define constant for "@ + number@,
            },
    {
        let mut out: Vec<char> = match language {
            Language::Rust => crate::text::buf("const MEANINGFUL_NAME: i32 = "),
            Language::Python => crate::text::buf("MEANINGFUL_NAME = "),
            Language::JavaScript | Language::TypeScript => crate::text::buf("const MEANINGFUL_NAME = "),
            _ => crate::text::buf("// Define constant for "),
        };
        extend_chars(&mut out, number);
        match language {
            Language::Rust => crate::text::extend_str(&mut out, ";\n// Then use MEANINGFUL_NAME instead"),
            Language::Python => crate::text::extend_str(&mut out, "\n# Then use MEANINGFUL_NAME instead"),
            Language::JavaScript | Language::TypeScript => crate::text::extend_str(
                &mut out,
                ";\n// Then use MEANINGFUL_NAME instead",
            ),
            _ => {},
        }
        string_from_chars(&out)
    }

    /// The documentation template of the language followed by the code.
    pub fn generate_documentation(&self, code: &str, language: Language) -> (r: String)
        ensures
            r@ == documented(code@, language),
    {
        let mut out: Vec<char> = match language {
            Language::Rust => crate::text::buf(DOC_RUST),
            Language::Python => crate::text::buf(DOC_PYTHON),
            Language::JavaScript | Language::TypeScript => crate::text::buf(DOC_JS),
            _ => crate::text::buf(DOC_OTHER),
        };
        crate::text::extend_str(&mut out, code);
        string_from_chars(&out)
    }
}

// ─── Loops and async ─────────────────────────────────────────────────────────

/// The trimmed line starts an imperative loop.
pub open spec fn imperative_loop(line: Seq<char>, lang: Language) -> bool {
    let t = trim(line);
    match lang {
        Language::Rust | Language::Python => starts_with(t, "for "@) && contains(t, " in "@),
        Language::JavaScript | Language::TypeScript => starts_with(t, "for ("@) || starts_with(t, "for("@),
        _ => false,
    }
}

/// A functional-style hint for the loop code, if one applies.
pub open spec fn functional_hint(code: Seq<char>, lang: Language) -> Option<Seq<char>> {
    match lang {
        Language::Rust => if contains(code, ".push("@) {
            Some("// Consider: collection.iter().map(|item| transform(item)).collect()"@)
        } else if contains(code, "if "@) {
            Some("// Consider: collection.iter().filter(|item| condition(item)).collect()"@)
        } else {
            None
        },
        Language::JavaScript | Language::TypeScript => if contains(code, ".push("@) {
            Some("// Consider: array.map(item => transform(item))"@)
        } else if contains(code, "if ("@) || contains(code, "if("@) {
            Some("// Consider: array.filter(item => condition(item))"@)
        } else {
            None
        },
        Language::Python => if contains(code, ".append("@) {
            Some("# Consider: [transform(item) for item in collection]"@)
        } else if contains(code, "if "@) {
            Some("# Consider: [item for item in collection if condition(item)]"@)
        } else {
            None
        },
        _ => None,
    }
}

/// The I/O patterns that suggest a function could be async.
pub open spec fn io_patterns(lang: Language) -> Seq<Seq<char>> {
    match lang {
        Language::Rust => seq!["std::fs::"@, "std::net::"@, "reqwest::"@, "tokio::fs::"@],
        Language::JavaScript | Language::TypeScript => seq!["fetch("@, "axios."@, "fs.read"@, "http."@],
        Language::Python => seq!["open("@, "requests."@, "urllib."@, "socket."@],
        _ => seq![],
    }
}

/// The code contains one of the language's I/O patterns.
pub open spec fn async_candidate(code: Seq<char>, lang: Language) -> bool {
    exists|k: int| 0 <= k < io_patterns(lang).len() && contains(code, #[trigger] io_patterns(lang)[k])
}

/// The code rewritten as async.
pub open spec fn async_version(code: Seq<char>, lang: Language) -> Seq<char> {
    match lang {
        Language::Rust => replace_all(
            replace_all(code, "fn "@, "async fn "@),
            "std::fs::"@,
            "tokio::fs::"@,
        ),
        Language::JavaScript => if contains(code, "function "@) {
            replace_all(code, "function "@, "async function "@)
        } else {
            "async "@ + code
        },
        Language::TypeScript => replace_all(code, "function "@, "async function "@),
        Language::Python => replace_all(code, "def "@, "async def "@),
        _ => code,
    }
}

/// The I/O patterns of a language.
fn io_pattern_list(lang: Language) -> (r: Vec<&'static str>)
    ensures
        crate::analyzer::str_views(r@) == io_patterns(lang),
{
    let r = match lang {
        Language::Rust => vec!["std::fs::", "std::net::", "reqwest::", "tokio::fs::"],
        Language::JavaScript | Language::TypeScript => vec!["fetch(", "axios.", "fs.read", "http."],
        Language::Python => vec!["open(", "requests.", "urllib.", "socket."],
        _ => vec![],
    };
    assert(crate::analyzer::str_views(r@) =~= io_patterns(lang));
    r
}

impl RefactoringEngine {
    /// Whether the line starts an imperative loop.
    pub fn is_imperative_loop(&self, line: &[char], language: Language) -> (r: bool)
        ensures
            r == imperative_loop(line@, language),
    {
        let t = trim_chars(line);
        match language {
            Language::Rust | Language::Python => crate::text::begins(&t, "for ") && has_lit(&t, " in "),
            Language::JavaScript | Language::TypeScript => crate::text::begins(&t, "for (")
                || crate::text::begins(&t, "for("),
            _ => false,
        }
    }

    /// The first line of the loop and the line closing its body (the last
    /// line when the body does not close).
    pub fn find_loop_bounds(&self, ls: &[Vec<char>], start: usize) -> (r: (usize, usize))
        requires
            start < ls@.len(),
            total_len(views(ls@)) <= i32::MAX,
        ensures
            r.0 == start,
            r.1 == brace_end(views(ls@), start as int, 0, false) - 1,
            start <= r.1 < ls@.len(),
    {
        proof {
            lemma_brace_end_bounds(views(ls@), start as int, 0, false);
        }
        let e = brace_block_end(ls, start);
        (start, e - 1)
    }

    /// A functional-style hint for the loop code, if one applies.
    pub fn convert_to_functional(&self, code: &str, language: Language) -> (r: Option<String>)
        ensures
            crate::analyzer::opt_view(r) == functional_hint(code@, language),
    {
        let cs = chars_of(code);
        match language {
            Language::Rust => {
                if has_lit(&cs, ".push(") {
                    Some(
                        crate::text::owned(
                            "// Consider: collection.iter().map(|item| transform(item)).collect()",
                        ),
                    )
                } else if has_lit(&cs, "if ") {
                    Some(
                        crate::text::owned(
                            "// Consider: collection.iter().filter(|item| condition(item)).collect()",
                        ),
                    )
                } else {
                    None
                }
            },
            Language::JavaScript | Language::TypeScript => {
                if has_lit(&cs, ".push(") {
                    Some(crate::text::owned("// Consider: array.map(item => transform(item))"))
                } else if has_lit(&cs, "if (") || has_lit(&cs, "if(") {
                    Some(crate::text::owned("// Consider: array.filter(item => condition(item))"))
                } else {
                    None
                }
            },
            Language::Python => {
                if has_lit(&cs, ".append(") {
                    Some(crate::text::owned("# Consider: [transform(item) for item in collection]"))
                } else if has_lit(&cs, "if ") {
                    Some(
                        crate::text::owned("# Consider: [item for item in collection if condition(item)]"),
                    )
                } else {
                    None
                }
            },
            _ => None,
        }
    }

    /// Whether the code performs I/O that could be async.
    pub fn could_be_async(&self, code: &str, language: Language) -> (r: bool)
        ensures
            r == async_candidate(code@, language),
    {
        let cs = chars_of(code);
        let pats = io_pattern_list(language);
        let ghost pv = io_patterns(language);
        let mut k: usize = 0;
        while k < pats.len()
            invariant
                k <= pats.len(),
                crate::analyzer::str_views(pats@) == pv,
                pv == io_patterns(language),
                cs@ == code@,
                forall|m: int| 0 <= m < k ==> !contains(code@, #[trigger] pv[m]),
            decreases pats.len() - k,
        {
            assert(pv[k as int] == pats@[k as int]@);
            if has_lit(&cs, pats[k]) {
                return true;
            }
            k += 1;
        }
        false
    }

    /// The code rewritten as async.
    pub fn generate_async_version(&self, code: &str, language: Language) -> (r: String)
        ensures
            r@ == async_version(code@, language),
    {
        let cs = chars_of(code);
        proof {
            reveal_strlit("fn ");
            reveal_strlit("std::fs::");
            reveal_strlit("function ");
            reveal_strlit("def ");
        }
        match language {
            Language::Rust => {
                let a = replace_lit(&cs, "fn ", "async fn ");
                let b = replace_lit(&a, "std::fs::", "tokio::fs::");
                string_from_chars(&b)
            },
            Language::JavaScript => {
                if has_lit(&cs, "function ") {
                    string_from_chars(&replace_lit(&cs, "function ", "async function "))
                } else {
                    let mut out = crate::text::buf("async ");
                    extend_chars(&mut out, &cs);
                    string_from_chars(&out)
                }
            },
            Language::TypeScript => string_from_chars(&replace_lit(&cs, "function ", "async function ")),
            Language::Python => string_from_chars(&replace_lit(&cs, "def ", "async def ")),
            _ => crate::text::owned(code),
        }
    }
}

// ─── Duplicate code ──────────────────────────────────────────────────────────

/// The minimum number of lines of a duplicate.
pub open spec fn min_dup_lines() -> int {
    5
}

/// How far the runs of equal, non-blank trimmed lines starting at lines `i`
/// and `j` extend, counting from `m`: the first run stays before `j`, the
/// second within the lines.
pub open spec fn dup_run(ls: Seq<Seq<char>>, i: int, j: int, m: int) -> int
    decreases ls.len() - m,
{
    if 0 <= m && 0 <= i && i + m < j && j + m < ls.len() && trim(ls[i + m]) == trim(ls[j + m])
        && trim(ls[i + m]).len() > 0 {
        dup_run(ls, i, j, m + 1)
    } else {
        m
    }
}

/// The number of lines minus five, or zero: first copies start before it,
/// second copies at or before it.
pub open spec fn dup_limit(n: int) -> int {
    if n >= min_dup_lines() {
        n - min_dup_lines()
    } else {
        0
    }
}

/// The duplicate found for lines `i` and `j`, if their run has five lines or
/// more: 1-based first and last lines of both copies.
pub open spec fn dup_entry(ls: Seq<Seq<char>>, i: int, j: int) -> Seq<(u32, u32, u32, u32)> {
    let m = dup_run(ls, i, j, 0);
    if m >= min_dup_lines() {
        seq![((i + 1) as u32, (i + m) as u32, (j + 1) as u32, (j + m) as u32)]
    } else {
        seq![]
    }
}

/// The duplicates of line `i` with the lines from `i + 5` up to `j`, exclusive.
pub open spec fn dups_row(ls: Seq<Seq<char>>, i: int, j: int) -> Seq<(u32, u32, u32, u32)>
    decreases j - i,
{
    if j <= i + min_dup_lines() {
        seq![]
    } else {
        dups_row(ls, i, j - 1) + dup_entry(ls, i, j - 1)
    }
}

/// The duplicates whose first copy starts before line `n`.
pub open spec fn dups_upto(ls: Seq<Seq<char>>, n: int) -> Seq<(u32, u32, u32, u32)>
    decreases n,
{
    if n <= 0 {
        seq![]
    } else {
        dups_upto(ls, n - 1) + dups_row(ls, n - 1, dup_limit(ls.len() as int) + 1)
    }
}

/// All duplicates, or `None` when there are none.
pub open spec fn duplicates_of(ls: Seq<Seq<char>>) -> Option<Seq<(u32, u32, u32, u32)>> {
    let d = dups_upto(ls, dup_limit(ls.len() as int));
    if d.len() == 0 {
        None
    } else {
        Some(d)
    }
}

/// A run never reaches past the start of the second copy.
proof fn lemma_dup_run_bound(ls: Seq<Seq<char>>, i: int, j: int, m: int)
    requires
        0 <= i,
        0 <= m,
        i + m <= j,
    ensures
        m <= dup_run(ls, i, j, m) <= j - i,
        dup_run(ls, i, j, m) <= ls.len() - j || dup_run(ls, i, j, m) == m,
    decreases ls.len() - m,
{
    if i + m < j && j + m < ls.len() && trim(ls[i + m]) == trim(ls[j + m]) && trim(ls[i + m]).len() > 0 {
        lemma_dup_run_bound(ls, i, j, m + 1);
    }
}

/// The characters of each line.
fn lines_chars(lines: &[&str]) -> (r: Vec<Vec<char>>)
    ensures
        views(r@) == crate::analyzer::str_views(lines@),
{
    let mut out: Vec<Vec<char>> = Vec::new();
    let mut i: usize = 0;
    while i < lines.len()
        invariant
            i <= lines.len(),
            views(out@) == crate::analyzer::str_views(lines@).take(i as int),
        decreases lines.len() - i,
    {
        let ghost o = views(out@);
        out.push(chars_of(lines[i]));
        assert(views(out@) =~= o.push(lines@[i as int]@));
        assert(crate::analyzer::str_views(lines@).take(i + 1) =~= crate::analyzer::str_views(
            lines@,
        ).take(i as int).push(lines@[i as int]@));
        i += 1;
    }
    assert(crate::analyzer::str_views(lines@).take(lines.len() as int) =~= crate::analyzer::str_views(
        lines@,
    ));
    out
}

/// Every line trimmed.
fn trimmed_lines(ls: &[Vec<char>]) -> (r: Vec<Vec<char>>)
    ensures
        r@.len() == ls@.len(),
        forall|k: int| 0 <= k < ls@.len() ==> (#[trigger] r@[k])@ == trim(ls@[k]@),
{
    let mut out: Vec<Vec<char>> = Vec::new();
    let mut i: usize = 0;
    while i < ls.len()
        invariant
            i <= ls.len(),
            out@.len() == i,
            forall|k: int| 0 <= k < i ==> (#[trigger] out@[k])@ == trim(ls@[k]@),
        decreases ls.len() - i,
    {
        out.push(trim_chars(&ls[i]));
        i += 1;
    }
    out
}

impl RefactoringEngine {
    /// Duplicate runs of at least five equal, non-blank trimmed lines, as
    /// 1-based first and last lines of both copies; `None` when there are none.
    pub fn find_duplicates(&self, lines: &[&str]) -> (r: Option<Vec<(u32, u32, u32, u32)>>)
        ensures
            match r {
                Some(v) => duplicates_of(crate::analyzer::str_views(lines@)) == Some(v@),
                None => duplicates_of(crate::analyzer::str_views(lines@)) is None,
            },
    {
        let ls = lines_chars(lines);
        self.duplicates_in(&ls)
    }

    /// Duplicate runs in the given lines.
    fn duplicates_in(&self, ls: &[Vec<char>]) -> (r: Option<Vec<(u32, u32, u32, u32)>>)
        ensures
            match r {
                Some(v) => duplicates_of(views(ls@)) == Some(v@),
                None => duplicates_of(views(ls@)) is None,
            },
    {
        let ghost lv = views(ls@);
        let tl = trimmed_lines(ls);
        let n = ls.len();
        let limit: usize = if n >= 5 { n - 5 } else { 0 };
        let mut out: Vec<(u32, u32, u32, u32)> = Vec::new();
        let mut i: usize = 0;
        while i < limit
            invariant
                lv == views(ls@),
                n == ls@.len(),
                limit == dup_limit(n as int),
                i <= limit,
                tl@.len() == n,
                forall|k: int| 0 <= k < n ==> (#[trigger] tl@[k])@ == trim(lv[k]),
                out@ == dups_upto(lv, i as int),
            decreases limit - i,
        {
            let ghost base = out@;
            let mut j: usize = i + 5;
            while j <= limit
                invariant
                    lv == views(ls@),
                    n == ls@.len(),
                    n >= 5,
                    limit == dup_limit(n as int),
                    i < limit,
                    i + 5 <= j <= limit + 1 || (j == i + 5 && limit < i + 5),
                    tl@.len() == n,
                    forall|k: int| 0 <= k < n ==> (#[trigger] tl@[k])@ == trim(lv[k]),
                    out@ == base + dups_row(lv, i as int, j as int),
                decreases limit + 1 - j,
            {
                let mut m: usize = 0;
                while i + m < j && j + m < n && crate::text::chars_eq(&tl[i + m], &tl[j + m]) && tl[i
                    + m].len() > 0
                    invariant
                        lv == views(ls@),
                        n == ls@.len(),
                        i + 5 <= j < n,
                        i + m <= j,
                        j + m <= n,
                        tl@.len() == n,
                        forall|k: int| 0 <= k < n ==> (#[trigger] tl@[k])@ == trim(lv[k]),
                        dup_run(lv, i as int, j as int, m as int) == dup_run(lv, i as int, j as int, 0),
                    decreases j - m,
                {
                    m += 1;
                }
                proof {
                    assert(dup_run(lv, i as int, j as int, m as int) == m);
                }
                let ghost o = out@;
                if m >= 5 {
                    out.push(
                        (
                            #[verifier::truncate] ((i + 1) as u32),
                            #[verifier::truncate] ((i + m) as u32),
                            #[verifier::truncate] ((j + 1) as u32),
                            #[verifier::truncate] ((j + m) as u32),
                        ),
                    );
                }
                assert(dups_row(lv, i as int, j + 1) == dups_row(lv, i as int, j as int) + dup_entry(
                    lv,
                    i as int,
                    j as int,
                ));
                assert(out@ =~= base + dups_row(lv, i as int, j + 1));
                j += 1;
            }
            assert(j >= limit + 1);
            assert(dups_row(lv, i as int, j as int) == dups_row(lv, i as int, limit + 1)) by {
                if j > limit + 1 {
                    assert(limit < i + 5);
                    assert(dups_row(lv, i as int, j as int) =~= seq![]);
                    assert(dups_row(lv, i as int, limit + 1) =~= seq![]);
                }
            }
            i += 1;
        }
        if out.len() == 0 {
            None
        } else {
            Some(out)
        }
    }
}

// ─── Unused imports ──────────────────────────────────────────────────────────

/// The last of the pieces of `s` between occurrences of `sep`.
pub open spec fn last_piece(s: Seq<char>, sep: Seq<char>) -> Seq<char> {
    crate::text::split_on(s, sep).last()
}

/// `str::matches(p).count()`: the left-to-right non-overlapping occurrences of
/// `p`, or one per character boundary when `p` is empty.
pub open spec fn match_count(s: Seq<char>, p: Seq<char>) -> nat {
    if p.len() == 0 {
        s.len() + 1
    } else {
        crate::text::count_matches(s, p)
    }
}

/// An import is used: the last path segment of a module import, or the
/// (un-aliased) name of one of its items, occurs more than once in the content.
pub open spec fn import_used(content: Seq<char>, imp: crate::analyzer::ImportModel) -> bool {
    if imp.items.len() == 0 {
        match_count(content, last_piece(imp.module, "::"@)) > 1
    } else {
        exists|k: int|
            0 <= k < imp.items.len() && match_count(
                content,
                trim(last_piece(#[trigger] imp.items[k], " as "@)),
            ) > 1
    }
}

/// How an unused import is listed: its module and line.
pub open spec fn unused_label(imp: crate::analyzer::ImportModel) -> Seq<char> {
    imp.module + " (line "@ + crate::text::dec(imp.line as nat) + ")"@
}

/// The labels of the unused imports among `imps`, in order.
pub open spec fn unused_imports_of(content: Seq<char>, imps: Seq<crate::analyzer::ImportModel>) -> Seq<
    Seq<char>,
>
    decreases imps.len(),
{
    if imps.len() == 0 {
        seq![]
    } else {
        unused_imports_of(content, imps.drop_last()) + if import_used(content, imps.last()) {
            seq![]
        } else {
            seq![unused_label(imps.last())]
        }
    }
}

/// The name an imported item is used by: the alias after ` as `, if any,
/// without surrounding spaces.
pub open spec fn item_name(item: Seq<char>) -> Seq<char> {
    trim(last_piece(item, " as "@))
}

/// An import that names items is listed as unused exactly when none of its
/// items occurs, by the name it is used by, more than once in the content:
/// one item that does, at any position, keeps the import off the list.
pub proof fn lemma_unused_import_items(
    content: Seq<char>,
    imps: Seq<crate::analyzer::ImportModel>,
    imp: crate::analyzer::ImportModel,
    k: int,
)
    requires
        0 <= k < imp.items.len(),
    ensures
        match_count(content, item_name(imp.items[k])) > 1 ==> unused_imports_of(content, imps.push(imp))
            == unused_imports_of(content, imps),
        (forall|m: int| 0 <= m < imp.items.len() ==> match_count(content, item_name(#[trigger] imp.items[m])) <= 1)
            ==> unused_imports_of(content, imps.push(imp)) == unused_imports_of(content, imps).push(
            unused_label(imp),
        ),
{
    assert(imps.push(imp).drop_last() =~= imps);
    assert(imps.push(imp).last() == imp);
    assert(unused_imports_of(content, imps) + seq![] =~= unused_imports_of(content, imps));
    assert(unused_imports_of(content, imps) + seq![unused_label(imp)] =~= unused_imports_of(content, imps).push(
        unused_label(imp),
    ));
    if match_count(content, item_name(imp.items[k])) > 1 {
        assert(import_used(content, imp));
    }
}

/// A module import without items is listed as unused exactly when the last
/// segment of its path occurs at most once in the content.
pub proof fn lemma_unused_module_import(
    content: Seq<char>,
    imps: Seq<crate::analyzer::ImportModel>,
    imp: crate::analyzer::ImportModel,
)
    requires
        imp.items.len() == 0,
    ensures
        unused_imports_of(content, imps.push(imp)) == if match_count(content, last_piece(imp.module, "::"@))
            > 1 {
            unused_imports_of(content, imps)
        } else {
            unused_imports_of(content, imps).push(unused_label(imp))
        },
{
    assert(imps.push(imp).drop_last() =~= imps);
    assert(unused_imports_of(content, imps) + seq![] =~= unused_imports_of(content, imps));
    assert(unused_imports_of(content, imps) + seq![unused_label(imp)] =~= unused_imports_of(content, imps).push(
        unused_label(imp),
    ));
}

/// Whether `p` occurs more than once in `s`, counted as `str::matches` does.
fn occurs_more_than_once(s: &[char], p: &[char]) -> (r: bool)
    ensures
        r == (match_count(s@, p@) > 1),
{
    if p.len() == 0 {
        s.len() > 0
    } else {
        crate::text::count_sub(s, p) > 1
    }
}

/// The last piece of `s` between occurrences of the non-empty literal `sep`.
fn last_piece_of(s: &[char], sep: &str) -> (r: Vec<char>)
    requires
        sep@.len() > 0,
    ensures
        r@ == last_piece(s@, sep@),
{
    let sc = chars_of(sep);
    let pieces = crate::text::split_on_str(s, &sc);
    let n = pieces.len();
    assert(views(pieces@).last() == pieces@[n - 1]@);
    let r = tail_of(&pieces[n - 1], 0);
    assert(pieces@[n - 1]@.skip(0) =~= pieces@[n - 1]@);
    r
}

impl RefactoringEngine {
    /// Whether the import is used in the content.
    fn import_is_used(&self, content: &[char], imp: &crate::analyzer::ImportInfo) -> (r: bool)
        ensures
            r == import_used(content@, imp.model()),
    {
        proof {
            reveal_strlit("::");
            reveal_strlit(" as ");
        }
        if imp.items.len() == 0 {
            let mc = chars_of(imp.module.as_str());
            let name = last_piece_of(&mc, "::");
            occurs_more_than_once(content, &name)
        } else {
            let ghost iv = crate::text::string_views(imp.items@);
            let mut k: usize = 0;
            while k < imp.items.len()
                invariant
                    k <= imp.items.len(),
                    iv == crate::text::string_views(imp.items@),
                    forall|m: int|
                        0 <= m < k ==> !(match_count(content@, trim(last_piece(#[trigger] iv[m], " as "@)))
                            > 1),
                decreases imp.items.len() - k,
            {
                let ic = chars_of(imp.items[k].as_str());
                proof {
                    reveal_strlit(" as ");
                }
                let piece = last_piece_of(&ic, " as ");
                let name = trim_chars(&piece);
                assert(iv[k as int] == imp.items@[k as int]@);
                if occurs_more_than_once(content, &name) {
                    return true;
                }
                k += 1;
            }
            false
        }
    }

    /// The unused imports of the analysis, as `module (line n)`.
    pub fn find_unused_imports(
        &self,
        ls: &[Vec<char>],
        analysis: &crate::analyzer::FileAnalysis,
    ) -> (r: Vec<String>)
        ensures
            crate::text::string_views(r@) == unused_imports_of(
                join(views(ls@), seq!['\n']),
                crate::analyzer::import_models(analysis.imports@),
            ),
    {
        let sep = vec!['\n'];
        let content = crate::text::join_chars(ls, &sep);
        assert(sep@ =~= seq!['\n']);
        let ghost im = crate::analyzer::import_models(analysis.imports@);
        let mut unused: Vec<String> = Vec::new();
        let mut i: usize = 0;
        while i < analysis.imports.len()
            invariant
                i <= analysis.imports.len(),
                content@ == join(views(ls@), seq!['\n']),
                im == crate::analyzer::import_models(analysis.imports@),
                crate::text::string_views(unused@) == unused_imports_of(content@, im.take(i as int)),
            decreases analysis.imports.len() - i,
        {
            let imp = &analysis.imports[i];
            assert(im.take(i + 1).drop_last() =~= im.take(i as int));
            assert(im.take(i + 1).last() == imp.model());
            let ghost u = crate::text::string_views(unused@);
            if !self.import_is_used(&content, imp) {
                let mut label = chars_of(imp.module.as_str());
                crate::text::extend_str(&mut label, " (line ");
                crate::text::push_dec(&mut label, imp.line as u64);
                crate::text::extend_str(&mut label, ")");
                let st = string_from_chars(&label);
                unused.push(st);
                assert(crate::text::string_views(unused@) =~= u.push(st@));
            } else {
                assert(crate::text::string_views(unused@) =~= u + seq![]);
            }
            i += 1;
        }
        assert(im.take(analysis.imports.len() as int) =~= im);
        unused
    }
}

// ─── Naming suggestions ──────────────────────────────────────────────────────

/// The conventional name for a symbol that breaks the naming convention of
/// its kind in the language, if it does.
pub open spec fn naming_fix(name: Seq<char>, kind: SymbolKind, lang: Language) -> Option<Seq<char>> {
    match lang {
        Language::Rust => match kind {
            SymbolKind::Function | SymbolKind::Method => if !is_snake(name) {
                Some(snake_of(name))
            } else {
                None
            },
            SymbolKind::Struct | SymbolKind::Enum | SymbolKind::Trait => if !is_pascal(name) {
                Some(pascal_of(name))
            } else {
                None
            },
            SymbolKind::Constant => if !is_screaming(name) {
                Some(screaming_of(name))
            } else {
                None
            },
            _ => None,
        },
        Language::JavaScript | Language::TypeScript => match kind {
            SymbolKind::Function | SymbolKind::Method | SymbolKind::Variable => if !is_camel(name)
                && !starts_with(name, "_"@) {
                Some(camel_of(name))
            } else {
                None
            },
            SymbolKind::Class | SymbolKind::Interface => if !is_pascal(name) {
                Some(pascal_of(name))
            } else {
                None
            },
            _ => None,
        },
        Language::Python => match kind {
            SymbolKind::Function | SymbolKind::Method | SymbolKind::Variable => if !is_snake(name)
                && !starts_with(name, "_"@) {
                Some(snake_of(name))
            } else {
                None
            },
            SymbolKind::Class => if !is_pascal(name) {
                Some(pascal_of(name))
            } else {
                None
            },
            SymbolKind::Constant => if !is_screaming(name) {
                Some(screaming_of(name))
            } else {
                None
            },
            _ => None,
        },
        _ => None,
    }
}

/// The code suggested by a rename: snake_case for Rust and Python, camelCase
/// for JavaScript and TypeScript, the name itself otherwise.
pub open spec fn rename_code(name: Seq<char>, lang: Language) -> Seq<char> {
    match lang {
        Language::Rust | Language::Python => snake_of(name),
        Language::JavaScript | Language::TypeScript => camel_of(name),
        _ => name,
    }
}

/// The rename warning of a public symbol.
pub open spec fn rename_breaks(vis: Visibility) -> Seq<Seq<char>> {
    if vis == Visibility::Public {
        seq!["This is a public symbol - renaming may break consumers"@]
    } else {
        seq![]
    }
}

/// The rename suggested for a symbol that breaks the naming convention.
pub open spec fn naming_suggestion(sym: crate::analyzer::SymbolModel, lang: Language) -> Option<
    SuggestionModel,
> {
    match naming_fix(sym.name, sym.kind, lang) {
        Some(fix) => Some(
            SuggestionModel {
                kind: RefactoringKind::Rename,
                confidence: Confidence::High,
                description: "Rename to '"@ + fix + "'"@,
                rationale: "Follow language naming conventions for consistency"@,
                file: seq![],
                start_line: sym.start_line,
                end_line: sym.start_line,
                original_code: sym.name,
                suggested_code: rename_code(sym.name, lang),
                impact: RefactoringImpact {
                    complexity_change: 0,
                    readability_improvement: 15,
                    maintainability_improvement: 10,
                    test_impact: TestImpact::MinorUpdates,
                    loc_change: 0,
                },
                prerequisites: seq![],
                breaking_changes: rename_breaks(sym.visibility),
            },
        ),
        None => None,
    }
}

/// The model of an optional suggestion.
pub open spec fn opt_model(o: Option<RefactoringSuggestion>) -> Option<SuggestionModel> {
    match o {
        Some(s) => Some(s.model()),
        None => None,
    }
}

/// No strings.
fn no_strings() -> (r: Vec<String>)
    ensures
        crate::text::string_views(r@) == Seq::<Seq<char>>::empty(),
{
    let r: Vec<String> = Vec::new();
    assert(crate::text::string_views(r@) =~= Seq::<Seq<char>>::empty());
    r
}

/// One string.
fn one_string(s: &str) -> (r: Vec<String>)
    ensures
        crate::text::string_views(r@) == seq![s@],
{
    let mut r: Vec<String> = Vec::new();
    r.push(crate::text::owned(s));
    assert(crate::text::string_views(r@) =~= seq![s@]);
    r
}

impl RefactoringEngine {
    /// The conventional name, if the symbol breaks its naming convention.
    fn naming_fix_of(&self, name: &str, kind: SymbolKind, language: Language) -> (r: Option<String>)
        ensures
            crate::analyzer::opt_view(r) == naming_fix(name@, kind, language),
    {
        let underscore = crate::text::begins(&chars_of(name), "_");
        match language {
            Language::Rust => match kind {
                SymbolKind::Function | SymbolKind::Method => if !self.is_snake_case(name) {
                    Some(self.to_snake_case(name))
                } else {
                    None
                },
                SymbolKind::Struct | SymbolKind::Enum | SymbolKind::Trait => if !self.is_pascal_case(
                    name,
                ) {
                    Some(self.to_pascal_case(name))
                } else {
                    None
                },
                SymbolKind::Constant => if !self.is_screaming_snake_case(name) {
                    Some(self.to_screaming_snake_case(name))
                } else {
                    None
                },
                _ => None,
            },
            Language::JavaScript | Language::TypeScript => match kind {
                SymbolKind::Function | SymbolKind::Method | SymbolKind::Variable => if !self.is_camel_case(
                    name,
                ) && !underscore {
                    Some(self.to_camel_case(name))
                } else {
                    None
                },
                SymbolKind::Class | SymbolKind::Interface => if !self.is_pascal_case(name) {
                    Some(self.to_pascal_case(name))
                } else {
                    None
                },
                _ => None,
            },
            Language::Python => match kind {
                SymbolKind::Function | SymbolKind::Method | SymbolKind::Variable => if !self.is_snake_case(
                    name,
                ) && !underscore {
                    Some(self.to_snake_case(name))
                } else {
                    None
                },
                SymbolKind::Class => if !self.is_pascal_case(name) {
                    Some(self.to_pascal_case(name))
                } else {
                    None
                },
                SymbolKind::Constant => if !self.is_screaming_snake_case(name) {
                    Some(self.to_screaming_snake_case(name))
                } else {
                    None
                },
                _ => None,
            },
            _ => None,
        }
    }

    /// A rename suggestion when the symbol breaks the naming convention of its
    /// kind in the language.
    pub fn check_naming_convention(
        &self,
        symbol: &crate::analyzer::CodeSymbol,
        language: Language,
    ) -> (r: Option<RefactoringSuggestion>)
        ensures
            opt_model(r) == naming_suggestion(symbol.model(), language),
    {
        let name = symbol.name.as_str();
        match self.naming_fix_of(name, symbol.kind, language) {
            None => None,
            Some(fix) => {
                let mut d = crate::text::buf("Rename to '");
                crate::text::extend_str(&mut d, fix.as_str());
                crate::text::extend_str(&mut d, "'");
                let suggested = match language {
                    Language::Rust | Language::Python => self.to_snake_case(name),
                    Language::JavaScript | Language::TypeScript => self.to_camel_case(name),
                    _ => crate::text::owned(name),
                };
                let breaking = if symbol.visibility == Visibility::Public {
                    one_string("This is a public symbol - renaming may break consumers")
                } else {
                    no_strings()
                };
                Some(
                    RefactoringSuggestion {
                        kind: RefactoringKind::Rename,
                        confidence: Confidence::High,
                        description: string_from_chars(&d),
                        rationale: crate::text::owned(
                            "Follow language naming conventions for consistency",
                        ),
                        file: String::new(),
                        start_line: symbol.start_line,
                        end_line: symbol.start_line,
                        original_code: crate::text::owned(name),
                        suggested_code: suggested,
                        impact: RefactoringImpact {
                            complexity_change: 0,
                            readability_improvement: 15,
                            maintainability_improvement: 10,
                            test_impact: TestImpact::MinorUpdates,
                            loc_change: 0,
                        },
                        prerequisites: no_strings(),
                        breaking_changes: breaking,
                    },
                )
            },
        }
    }
}

// ─── Suggestions from smells and symbols ─────────────────────────────────────

/// Line `k` of the lines, or nothing.
pub open spec fn line_at(ls: Seq<Seq<char>>, k: int) -> Seq<char> {
    if 0 <= k < ls.len() {
        ls[k]
    } else {
        seq![]
    }
}

/// The snippet of a smell, or nothing.
pub open spec fn snippet_or_empty(s: Option<Seq<char>>) -> Seq<char> {
    match s {
        Some(t) => t,
        None => seq![],
    }
}

/// The suggestion for a code smell: split a long function, return early from
/// deep nesting, name a magic number, document a public function.
pub open spec fn smell_suggestion(
    smell: crate::analyzer::SmellModel,
    ls: Seq<Seq<char>>,
    lang: Language,
) -> Option<SuggestionModel> {
    let code = code_range(ls, smell.line, smell.end_line);
    match smell.smell_type {
        crate::analyzer::CodeSmellType::LongFunction => Some(
            SuggestionModel {
                kind: RefactoringKind::SplitFunction,
                confidence: Confidence::High,
                description: "Split long function into smaller, focused functions"@,
                rationale: smell.message,
                file: smell.file,
                start_line: smell.line,
                end_line: smell.end_line,
                original_code: code,
                suggested_code: split_hint(lang),
                impact: RefactoringImpact {
                    complexity_change: -5i32,
                    readability_improvement: 40,
                    maintainability_improvement: 35,
                    test_impact: TestImpact::NewTestsNeeded,
                    loc_change: 10,
                },
                prerequisites: seq![],
                breaking_changes: seq![],
            },
        ),
        crate::analyzer::CodeSmellType::DeepNesting => Some(
            SuggestionModel {
                kind: RefactoringKind::EarlyReturn,
                confidence: Confidence::High,
                description: "Apply early return pattern to reduce nesting"@,
                rationale: smell.message,
                file: smell.file,
                start_line: smell.line,
                end_line: smell.end_line,
                original_code: code,
                suggested_code: early_return_hint(lang),
                impact: RefactoringImpact {
                    complexity_change: -3i32,
                    readability_improvement: 50,
                    maintainability_improvement: 30,
                    test_impact: TestImpact::NoUpdates,
                    loc_change: 0,
                },
                prerequisites: seq![],
                breaking_changes: seq![],
            },
        ),
        crate::analyzer::CodeSmellType::MagicNumbers => Some(
            SuggestionModel {
                kind: RefactoringKind::ReplaceMagicNumber,
                confidence: Confidence::VeryHigh,
                description: "Replace magic number with named constant"@,
                rationale: smell.message,
                file: smell.file,
                start_line: smell.line,
                end_line: smell.end_line,
                original_code: snippet_or_empty(smell.snippet),
                suggested_code: constant_replacement(code, lang),
                impact: RefactoringImpact {
                    complexity_change: 0,
                    readability_improvement: 30,
                    maintainability_improvement: 40,
                    test_impact: TestImpact::NoUpdates,
                    loc_change: 2,
                },
                prerequisites: seq![],
                breaking_changes: seq![],
            },
        ),
        crate::analyzer::CodeSmellType::MissingDocumentation => Some(
            SuggestionModel {
                kind: RefactoringKind::AddTypeAnnotations,
                confidence: Confidence::Medium,
                description: "Add documentation to public function"@,
                rationale: smell.message,
                file: smell.file,
                start_line: smell.line,
                end_line: smell.line,
                original_code: line_at(ls, smell.line - 1),
                suggested_code: documented(code, lang),
                impact: RefactoringImpact {
                    complexity_change: 0,
                    readability_improvement: 20,
                    maintainability_improvement: 25,
                    test_impact: TestImpact::NoUpdates,
                    loc_change: 5,
                },
                prerequisites: seq![],
                breaking_changes: seq![],
            },
        ),
        _ => None,
    }
}

/// The smell's line range is well-formed on the lines, and a missing
/// documentation smell has a line number.
pub open spec fn smell_range_ok(smell: crate::analyzer::SmellModel, ls: Seq<Seq<char>>) -> bool {
    &&& range_ok(ls, smell.line, smell.end_line)
    &&& smell.smell_type == crate::analyzer::CodeSmellType::MissingDocumentation ==> smell.line >= 1
}

/// The async-conversion suggestion for a function doing I/O.
pub open spec fn async_suggestion(
    sym: crate::analyzer::SymbolModel,
    ls: Seq<Seq<char>>,
    lang: Language,
) -> Seq<SuggestionModel> {
    let code = code_range(ls, sym.start_line, sym.end_line);
    if sym.kind == SymbolKind::Function && async_candidate(code, lang) {
        seq![
            SuggestionModel {
                kind: RefactoringKind::ConvertToAsync,
                confidence: Confidence::Medium,
                description: "Convert '"@ + sym.name + "' to async function"@,
                rationale: "This function performs I/O operations that could be async"@,
                file: seq![],
                start_line: sym.start_line,
                end_line: sym.end_line,
                original_code: code,
                suggested_code: async_version(code, lang),
                impact: RefactoringImpact {
                    complexity_change: 1,
                    readability_improvement: 0,
                    maintainability_improvement: 10,
                    test_impact: TestImpact::MajorUpdates,
                    loc_change: 2,
                },
                prerequisites: seq!["Ensure async runtime is available"@],
                breaking_changes: seq!["Function signature changes"@],
            },
        ]
    } else {
        seq![]
    }
}

/// The suggestions for one symbol: a rename, then an async conversion.
pub open spec fn symbol_suggestions(
    sym: crate::analyzer::SymbolModel,
    ls: Seq<Seq<char>>,
    lang: Language,
) -> Seq<SuggestionModel> {
    (match naming_suggestion(sym, lang) {
        Some(s) => seq![s],
        None => seq![],
    }) + async_suggestion(sym, ls, lang)
}

/// A function symbol's line range is well-formed on the lines.
pub open spec fn symbol_range_ok(sym: crate::analyzer::SymbolModel, ls: Seq<Seq<char>>) -> bool {
    sym.kind == SymbolKind::Function ==> range_ok(ls, sym.start_line, sym.end_line)
}

impl RefactoringEngine {
    /// The suggestion for a code smell, if its kind has one.
    pub fn smell_to_refactoring(
        &self,
        smell: &crate::analyzer::CodeSmell,
        ls: &[Vec<char>],
        language: Language,
    ) -> (r: Option<RefactoringSuggestion>)
        requires
            smell_range_ok(smell.model(), views(ls@)),
        ensures
            opt_model(r) == smell_suggestion(smell.model(), views(ls@), language),
    {
        let original_code = self.get_code_range(ls, smell.line, smell.end_line);
        let code = original_code.as_str();
        match smell.smell_type {
            crate::analyzer::CodeSmellType::LongFunction => Some(
                RefactoringSuggestion {
                    kind: RefactoringKind::SplitFunction,
                    confidence: Confidence::High,
                    description: crate::text::owned(
                        "Split long function into smaller, focused functions",
                    ),
                    rationale: crate::text::owned(smell.message.as_str()),
                    file: crate::text::owned(smell.file.as_str()),
                    start_line: smell.line,
                    end_line: smell.end_line,
                    original_code: crate::text::owned(code),
                    suggested_code: self.generate_split_function(code, language),
                    impact: RefactoringImpact {
                        complexity_change: -5,
                        readability_improvement: 40,
                        maintainability_improvement: 35,
                        test_impact: TestImpact::NewTestsNeeded,
                        loc_change: 10,
                    },
                    prerequisites: no_strings(),
                    breaking_changes: no_strings(),
                },
            ),
            crate::analyzer::CodeSmellType::DeepNesting => Some(
                RefactoringSuggestion {
                    kind: RefactoringKind::EarlyReturn,
                    confidence: Confidence::High,
                    description: crate::text::owned("Apply early return pattern to reduce nesting"),
                    rationale: crate::text::owned(smell.message.as_str()),
                    file: crate::text::owned(smell.file.as_str()),
                    start_line: smell.line,
                    end_line: smell.end_line,
                    original_code: crate::text::owned(code),
                    suggested_code: self.generate_early_return(code, language),
                    impact: RefactoringImpact {
                        complexity_change: -3,
                        readability_improvement: 50,
                        maintainability_improvement: 30,
                        test_impact: TestImpact::NoUpdates,
                        loc_change: 0,
                    },
                    prerequisites: no_strings(),
                    breaking_changes: no_strings(),
                },
            ),
            crate::analyzer::CodeSmellType::MagicNumbers => {
                let snippet = match &smell.snippet {
                    Some(t) => crate::text::owned(t.as_str()),
                    None => String::new(),
                };
                Some(
                    RefactoringSuggestion {
                        kind: RefactoringKind::ReplaceMagicNumber,
                        confidence: Confidence::VeryHigh,
                        description: crate::text::owned("Replace magic number with named constant"),
                        rationale: crate::text::owned(smell.message.as_str()),
                        file: crate::text::owned(smell.file.as_str()),
                        start_line: smell.line,
                        end_line: smell.end_line,
                        original_code: snippet,
                        suggested_code: self.generate_constant_replacement(code, language),
                        impact: RefactoringImpact {
                            complexity_change: 0,
                            readability_improvement: 30,
                            maintainability_improvement: 40,
                            test_impact: TestImpact::NoUpdates,
                            loc_change: 2,
                        },
                        prerequisites: no_strings(),
                        breaking_changes: no_strings(),
                    },
                )
            },
            crate::analyzer::CodeSmellType::MissingDocumentation => {
                let k: usize = (smell.line - 1) as usize;
                let line = if k < ls.len() {
                    string_from_chars(&ls[k])
                } else {
                    String::new()
                };
                Some(
                    RefactoringSuggestion {
                        kind: RefactoringKind::AddTypeAnnotations,
                        confidence: Confidence::Medium,
                        description: crate::text::owned("Add documentation to public function"),
                        rationale: crate::text::owned(smell.message.as_str()),
                        file: crate::text::owned(smell.file.as_str()),
                        start_line: smell.line,
                        end_line: smell.line,
                        original_code: line,
                        suggested_code: self.generate_documentation(code, language),
                        impact: RefactoringImpact {
                            complexity_change: 0,
                            readability_improvement: 20,
                            maintainability_improvement: 25,
                            test_impact: TestImpact::NoUpdates,
                            loc_change: 5,
                        },
                        prerequisites: no_strings(),
                        breaking_changes: no_strings(),
                    },
                )
            },
            _ => None,
        }
    }

    /// The suggestions for one symbol: a rename, then an async conversion.
    pub fn suggest_symbol_refactorings(
        &self,
        symbol: &crate::analyzer::CodeSymbol,
        ls: &[Vec<char>],
        language: Language,
    ) -> (r: Vec<RefactoringSuggestion>)
        requires
            symbol_range_ok(symbol.model(), views(ls@)),
        ensures
            suggestion_models(r@) == symbol_suggestions(symbol.model(), views(ls@), language),
    {
        let mut out: Vec<RefactoringSuggestion> = Vec::new();
        let naming = self.check_naming_convention(symbol, language);
        match naming {
            Some(s) => {
                out.push(s);
            },
            None => {},
        }
        let ghost first = suggestion_models(out@);
        assert(first =~= match naming_suggestion(symbol.model(), language) {
            Some(s) => seq![s],
            None => seq![],
        });
        if symbol.kind == SymbolKind::Function {
            let func_code = self.get_code_range(ls, symbol.start_line, symbol.end_line);
            if self.could_be_async(func_code.as_str(), language) {
                let mut d = crate::text::buf("Convert '");
                crate::text::extend_str(&mut d, symbol.name.as_str());
                crate::text::extend_str(&mut d, "' to async function");
                let s = RefactoringSuggestion {
                    kind: RefactoringKind::ConvertToAsync,
                    confidence: Confidence::Medium,
                    description: string_from_chars(&d),
                    rationale: crate::text::owned(
                        "This function performs I/O operations that could be async",
                    ),
                    file: String::new(),
                    start_line: symbol.start_line,
                    end_line: symbol.end_line,
                    original_code: crate::text::owned(func_code.as_str()),
                    suggested_code: self.generate_async_version(func_code.as_str(), language),
                    impact: RefactoringImpact {
                        complexity_change: 1,
                        readability_improvement: 0,
                        maintainability_improvement: 10,
                        test_impact: TestImpact::MajorUpdates,
                        loc_change: 2,
                    },
                    prerequisites: one_string("Ensure async runtime is available"),
                    breaking_changes: one_string("Function signature changes"),
                };
                out.push(s);
                assert(suggestion_models(out@) =~= first.push(s.model()));
            } else {
                assert(suggestion_models(out@) =~= first + seq![]);
            }
        } else {
            assert(suggestion_models(out@) =~= first + seq![]);
        }
        out
    }
}

// ─── Pattern-based suggestions ───────────────────────────────────────────────

/// A duplicate's 1-based line numbers lie within the lines, each copy in order.
pub open spec fn dup_in_bounds(ls: Seq<Seq<char>>, d: (u32, u32, u32, u32)) -> bool {
    1 <= d.0 <= d.1 < ls.len() && 1 <= d.2 <= d.3 <= ls.len()
}

/// The entries of a row lie within the lines.
proof fn lemma_dups_row_bounds(ls: Seq<Seq<char>>, i: int, j: int)
    requires
        0 <= i,
        j <= dup_limit(ls.len() as int) + 1,
        ls.len() <= i32::MAX,
    ensures
        forall|k: int| 0 <= k < dups_row(ls, i, j).len() ==> dup_in_bounds(ls, #[trigger] dups_row(ls, i, j)[k]),
    decreases j - i,
{
    if j > i + min_dup_lines() {
        lemma_dups_row_bounds(ls, i, j - 1);
        lemma_dup_run_bound(ls, i, j - 1, 0);
        let a = dups_row(ls, i, j - 1);
        let b = dup_entry(ls, i, j - 1);
        assert forall|k: int| 0 <= k < dups_row(ls, i, j).len() implies dup_in_bounds(
            ls,
            #[trigger] dups_row(ls, i, j)[k],
        ) by {
            if k < a.len() {
                assert(dups_row(ls, i, j)[k] == a[k]);
            } else {
                assert(dups_row(ls, i, j)[k] == b[k - a.len()]);
            }
        }
    }
}

/// Every duplicate found lies within the lines.
proof fn lemma_dups_bounds(ls: Seq<Seq<char>>, n: int)
    requires
        n <= dup_limit(ls.len() as int),
        ls.len() <= i32::MAX,
    ensures
        forall|k: int| 0 <= k < dups_upto(ls, n).len() ==> dup_in_bounds(ls, #[trigger] dups_upto(ls, n)[k]),
    decreases n,
{
    if n > 0 {
        lemma_dups_bounds(ls, n - 1);
        lemma_dups_row_bounds(ls, n - 1, dup_limit(ls.len() as int) + 1);
        let a = dups_upto(ls, n - 1);
        let b = dups_row(ls, n - 1, dup_limit(ls.len() as int) + 1);
        assert forall|k: int| 0 <= k < dups_upto(ls, n).len() implies dup_in_bounds(
            ls,
            #[trigger] dups_upto(ls, n)[k],
        ) by {
            if k < a.len() {
                assert(dups_upto(ls, n)[k] == a[k]);
            } else {
                assert(dups_upto(ls, n)[k] == b[k - a.len()]);
            }
        }
    }
}

/// The merge suggestion for a duplicate.
pub open spec fn dup_suggestion(ls: Seq<Seq<char>>, path: Seq<char>, d: (u32, u32, u32, u32)) -> SuggestionModel {
    SuggestionModel {
        kind: RefactoringKind::MergeDuplicates,
        confidence: Confidence::High,
        description: "Extract duplicate code into a shared function"@,
        rationale: "Lines "@ + crate::text::dec(d.0 as nat) + "-"@ + crate::text::dec(d.1 as nat) + " and "@
            + crate::text::dec(d.2 as nat) + "-"@ + crate::text::dec(d.3 as nat)
            + " contain duplicate code"@,
        file: path,
        start_line: d.0,
        end_line: d.1,
        original_code: code_range(ls, d.0, d.1),
        suggested_code: "// Extract to shared function"@,
        impact: RefactoringImpact {
            complexity_change: -2i32,
            readability_improvement: 30,
            maintainability_improvement: 50,
            test_impact: TestImpact::NewTestsNeeded,
            loc_change: (d.0 - d.1) as i32,
        },
        prerequisites: seq![],
        breaking_changes: seq![],
    }
}

/// The merge suggestions for all duplicates.
pub open spec fn dup_suggestions(ls: Seq<Seq<char>>, path: Seq<char>) -> Seq<SuggestionModel> {
    match duplicates_of(ls) {
        Some(d) => d.map_values(|x: (u32, u32, u32, u32)| dup_suggestion(ls, path, x)),
        None => seq![],
    }
}

/// The index of the line closing the loop that starts at line `i`.
pub open spec fn loop_end(ls: Seq<Seq<char>>, i: int) -> int {
    brace_end(ls, i, 0, false) - 1
}

/// The code of the loop that starts at line `i`.
pub open spec fn loop_code(ls: Seq<Seq<char>>, i: int) -> Seq<char> {
    code_range(ls, (i + 1) as u32, (loop_end(ls, i) + 1) as u32)
}

/// The functional-style suggestion for a loop starting at line `i`, if any.
pub open spec fn loop_suggestion(ls: Seq<Seq<char>>, lang: Language, path: Seq<char>, i: int) -> Seq<
    SuggestionModel,
> {
    if imperative_loop(ls[i], lang) {
        match functional_hint(loop_code(ls, i), lang) {
            Some(h) => seq![
                SuggestionModel {
                    kind: RefactoringKind::ConvertToFunctional,
                    confidence: Confidence::Medium,
                    description: "Convert imperative loop to functional style"@,
                    rationale: "Functional style is often more readable and less error-prone"@,
                    file: path,
                    start_line: (i + 1) as u32,
                    end_line: (loop_end(ls, i) + 1) as u32,
                    original_code: loop_code(ls, i),
                    suggested_code: h,
                    impact: RefactoringImpact {
                        complexity_change: -1i32,
                        readability_improvement: 25,
                        maintainability_improvement: 20,
                        test_impact: TestImpact::NoUpdates,
                        loc_change: -2i32,
                    },
                    prerequisites: seq![],
                    breaking_changes: seq![],
                },
            ],
            None => seq![],
        }
    } else {
        seq![]
    }
}

/// The loop suggestions for the first `n` lines.
pub open spec fn loop_suggestions(ls: Seq<Seq<char>>, lang: Language, path: Seq<char>, n: int) -> Seq<
    SuggestionModel,
>
    decreases n,
{
    if n <= 0 {
        seq![]
    } else {
        loop_suggestions(ls, lang, path, n - 1) + loop_suggestion(ls, lang, path, n - 1)
    }
}

/// The suggestion to remove the unused imports, if there are any.
pub open spec fn unused_suggestion(
    ls: Seq<Seq<char>>,
    imps: Seq<crate::analyzer::ImportModel>,
    path: Seq<char>,
) -> Seq<SuggestionModel> {
    let u = unused_imports_of(join(ls, seq!['\n']), imps);
    if u.len() == 0 {
        seq![]
    } else {
        seq![
            SuggestionModel {
                kind: RefactoringKind::RemoveUnusedImports,
                confidence: Confidence::VeryHigh,
                description: "Remove "@ + crate::text::dec(u.len()) + " unused imports"@,
                rationale: "Unused imports add clutter and may slow compilation"@,
                file: path,
                start_line: 1,
                end_line: 1,
                original_code: join(u, "\n"@),
                suggested_code: "// Remove these imports"@,
                impact: RefactoringImpact {
                    complexity_change: 0,
                    readability_improvement: 10,
                    maintainability_improvement: 15,
                    test_impact: TestImpact::NoUpdates,
                    loc_change: (0 - u.len()) as i32,
                },
                prerequisites: seq![],
                breaking_changes: seq![],
            },
        ]
    }
}

/// The pattern-based suggestions: merge duplicates, write loops functionally,
/// remove unused imports.
pub open spec fn pattern_suggestions(
    ls: Seq<Seq<char>>,
    lang: Language,
    path: Seq<char>,
    imps: Seq<crate::analyzer::ImportModel>,
) -> Seq<SuggestionModel> {
    dup_suggestions(ls, path) + loop_suggestions(ls, lang, path, ls.len() as int) + unused_suggestion(
        ls,
        imps,
        path,
    )
}

/// No more unused imports than imports.
proof fn lemma_unused_len(content: Seq<char>, imps: Seq<crate::analyzer::ImportModel>)
    ensures
        unused_imports_of(content, imps).len() <= imps.len(),
    decreases imps.len(),
{
    if imps.len() > 0 {
        lemma_unused_len(content, imps.drop_last());
    }
}

impl RefactoringEngine {
    /// The merge suggestions for the duplicates in the lines.
    fn duplicate_suggestions(&self, ls: &[Vec<char>], path: &str) -> (r: Vec<RefactoringSuggestion>)
        requires
            ls@.len() <= i32::MAX,
        ensures
            suggestion_models(r@) == dup_suggestions(views(ls@), path@),
    {
        let ghost lv = views(ls@);
        let mut out: Vec<RefactoringSuggestion> = Vec::new();
        match self.duplicates_in(ls) {
            None => {
                assert(suggestion_models(out@) =~= dup_suggestions(lv, path@));
            },
            Some(dups) => {
                proof {
                    lemma_dups_bounds(lv, dup_limit(lv.len() as int));
                }
                let ghost all = dups@;
                let mut k: usize = 0;
                while k < dups.len()
                    invariant
                        k <= dups.len(),
                        lv == views(ls@),
                        lv.len() <= i32::MAX,
                        all == dups@,
                        duplicates_of(lv) == Some(all),
                        forall|q: int| 0 <= q < all.len() ==> dup_in_bounds(lv, #[trigger] all[q]),
                        suggestion_models(out@) == all.take(k as int).map_values(
                            |x: (u32, u32, u32, u32)| dup_suggestion(lv, path@, x),
                        ),
                    decreases dups.len() - k,
                {
                    let (s1, e1, s2, e2) = dups[k];
                    assert(dup_in_bounds(lv, all[k as int]));
                    let mut rat = crate::text::buf("Lines ");
                    crate::text::push_dec(&mut rat, s1 as u64);
                    crate::text::extend_str(&mut rat, "-");
                    crate::text::push_dec(&mut rat, e1 as u64);
                    crate::text::extend_str(&mut rat, " and ");
                    crate::text::push_dec(&mut rat, s2 as u64);
                    crate::text::extend_str(&mut rat, "-");
                    crate::text::push_dec(&mut rat, e2 as u64);
                    crate::text::extend_str(&mut rat, " contain duplicate code");
                    let s = RefactoringSuggestion {
                        kind: RefactoringKind::MergeDuplicates,
                        confidence: Confidence::High,
                        description: crate::text::owned("Extract duplicate code into a shared function"),
                        rationale: string_from_chars(&rat),
                        file: crate::text::owned(path),
                        start_line: s1,
                        end_line: e1,
                        original_code: self.get_code_range(ls, s1, e1),
                        suggested_code: crate::text::owned("// Extract to shared function"),
                        impact: RefactoringImpact {
                            complexity_change: -2,
                            readability_improvement: 30,
                            maintainability_improvement: 50,
                            test_impact: TestImpact::NewTestsNeeded,
                            loc_change: -((e1 - s1) as i32),
                        },
                        prerequisites: no_strings(),
                        breaking_changes: no_strings(),
                    };
                    let ghost o = suggestion_models(out@);
                    out.push(s);
                    assert(s.model() == dup_suggestion(lv, path@, all[k as int]));
                    assert(suggestion_models(out@) =~= o.push(s.model()));
                    assert(all.take(k + 1).map_values(|x: (u32, u32, u32, u32)| dup_suggestion(lv, path@, x))
                        =~= all.take(k as int).map_values(
                        |x: (u32, u32, u32, u32)| dup_suggestion(lv, path@, x),
                    ).push(dup_suggestion(lv, path@, all[k as int])));
                    k += 1;
                }
                assert(all.take(dups.len() as int) =~= all);
            },
        }
        out
    }

    /// The functional-style suggestions for the loops in the lines.
    fn loop_refactorings(&self, ls: &[Vec<char>], language: Language, path: &str) -> (r: Vec<
        RefactoringSuggestion,
    >)
        requires
            total_len(views(ls@)) <= i32::MAX,
            ls@.len() <= i32::MAX,
        ensures
            suggestion_models(r@) == loop_suggestions(views(ls@), language, path@, ls@.len() as int),
    {
        let ghost lv = views(ls@);
        let mut out: Vec<RefactoringSuggestion> = Vec::new();
        let mut i: usize = 0;
        while i < ls.len()
            invariant
                i <= ls.len(),
                lv == views(ls@),
                total_len(lv) <= i32::MAX,
                lv.len() <= i32::MAX,
                suggestion_models(out@) == loop_suggestions(lv, language, path@, i as int),
            decreases ls.len() - i,
        {
            let ghost o = suggestion_models(out@);
            if self.is_imperative_loop(&ls[i], language) {
                let (loop_start, loop_end_line) = self.find_loop_bounds(ls, i);
                let st = (loop_start as u32) + 1;
                let en = (loop_end_line as u32) + 1;
                let loop_text = self.get_code_range(ls, st, en);
                assert(loop_text@ == loop_code(lv, i as int));
                match self.convert_to_functional(loop_text.as_str(), language) {
                    Some(functional) => {
                        let s = RefactoringSuggestion {
                            kind: RefactoringKind::ConvertToFunctional,
                            confidence: Confidence::Medium,
                            description: crate::text::owned("Convert imperative loop to functional style"),
                            rationale: crate::text::owned(
                                "Functional style is often more readable and less error-prone",
                            ),
                            file: crate::text::owned(path),
                            start_line: st,
                            end_line: en,
                            original_code: loop_text,
                            suggested_code: functional,
                            impact: RefactoringImpact {
                                complexity_change: -1,
                                readability_improvement: 25,
                                maintainability_improvement: 20,
                                test_impact: TestImpact::NoUpdates,
                                loc_change: -2,
                            },
                            prerequisites: no_strings(),
                            breaking_changes: no_strings(),
                        };
                        out.push(s);
                        assert(suggestion_models(out@) =~= o + loop_suggestion(lv, language, path@, i as int));
                    },
                    None => {
                        assert(suggestion_models(out@) =~= o + loop_suggestion(lv, language, path@, i as int));
                    },
                }
            } else {
                assert(suggestion_models(out@) =~= o + loop_suggestion(lv, language, path@, i as int));
            }
            i += 1;
        }
        out
    }

    /// Pattern-based suggestions: merge duplicates, write loops functionally,
    /// remove unused imports.
    pub fn find_pattern_refactorings(
        &self,
        ls: &[Vec<char>],
        analysis: &crate::analyzer::FileAnalysis,
    ) -> (r: Vec<RefactoringSuggestion>)
        requires
            total_len(views(ls@)) <= i32::MAX,
            ls@.len() <= i32::MAX,
            analysis.imports@.len() <= i32::MAX,
        ensures
            suggestion_models(r@) == pattern_suggestions(
                views(ls@),
                analysis.language,
                analysis.path@,
                crate::analyzer::import_models(analysis.imports@),
            ),
    {
        let ghost lv = views(ls@);
        let path = analysis.path.as_str();
        let mut out = self.duplicate_suggestions(ls, path);
        let mut loops = self.loop_refactorings(ls, analysis.language, path);
        let ghost a = suggestion_models(out@);
        let ghost b = suggestion_models(loops@);
        out.append(&mut loops);
        let ghost ab = suggestion_models(out@);
        assert(ab =~= a + b);
        let unused = self.find_unused_imports(ls, analysis);
        proof {
            lemma_unused_len(join(lv, seq!['\n']), crate::analyzer::import_models(analysis.imports@));
        }
        if unused.len() > 0 {
            let n = unused.len();
            let mut d = crate::text::buf("Remove ");
            crate::text::push_dec(&mut d, n as u64);
            crate::text::extend_str(&mut d, " unused imports");
            let nl = vec!['\n'];
            let mut uc: Vec<Vec<char>> = Vec::new();
            let mut k: usize = 0;
            while k < unused.len()
                invariant
                    k <= unused.len(),
                    views(uc@) == crate::text::string_views(unused@).take(k as int),
                decreases unused.len() - k,
            {
                let ghost p = views(uc@);
                uc.push(chars_of(unused[k].as_str()));
                assert(views(uc@) =~= p.push(unused@[k as int]@));
                assert(crate::text::string_views(unused@).take(k + 1) =~= crate::text::string_views(
                    unused@,
                ).take(k as int).push(unused@[k as int]@));
                k += 1;
            }
            assert(crate::text::string_views(unused@).take(unused.len() as int) =~= crate::text::string_views(
                unused@,
            ));
            let joined = crate::text::join_chars(&uc, &nl);
            assert(nl@ =~= "\n"@) by {
                reveal_strlit("\n");
            }
            let s = RefactoringSuggestion {
                kind: RefactoringKind::RemoveUnusedImports,
                confidence: Confidence::VeryHigh,
                description: string_from_chars(&d),
                rationale: crate::text::owned("Unused imports add clutter and may slow compilation"),
                file: crate::text::owned(path),
                start_line: 1,
                end_line: 1,
                original_code: string_from_chars(&joined),
                suggested_code: crate::text::owned("// Remove these imports"),
                impact: RefactoringImpact {
                    complexity_change: 0,
                    readability_improvement: 10,
                    maintainability_improvement: 15,
                    test_impact: TestImpact::NoUpdates,
                    loc_change: -(n as i32),
                },
                prerequisites: no_strings(),
                breaking_changes: no_strings(),
            };
            out.push(s);
            assert(suggestion_models(out@) =~= ab.push(s.model()));
        } else {
            assert(suggestion_models(out@) =~= ab + seq![]);
        }
        out
    }
}

// ─── Ordering and the entry point ────────────────────────────────────────────

/// `a` comes strictly before `b`: higher confidence, or equal confidence and
/// higher maintainability improvement.
pub open spec fn ranks_before(a: SuggestionModel, b: SuggestionModel) -> bool {
    confidence_rank(a.confidence) > confidence_rank(b.confidence) || (confidence_rank(a.confidence)
        == confidence_rank(b.confidence) && a.impact.maintainability_improvement
        > b.impact.maintainability_improvement)
}

/// Where `x` goes in `sorted`: before the first element it ranks before, so
/// after all elements that rank at least as high.
pub open spec fn insert_pos(sorted: Seq<SuggestionModel>, x: SuggestionModel) -> int
    decreases sorted.len(),
{
    if sorted.len() == 0 {
        0
    } else if ranks_before(x, sorted[0]) {
        0
    } else {
        1 + insert_pos(sorted.drop_first(), x)
    }
}

/// The suggestions ordered by descending confidence, then descending
/// maintainability improvement; suggestions that tie keep their order.
pub open spec fn sort_suggestions(s: Seq<SuggestionModel>) -> Seq<SuggestionModel>
    decreases s.len(),
{
    if s.len() == 0 {
        seq![]
    } else {
        let sorted = sort_suggestions(s.drop_last());
        sorted.insert(insert_pos(sorted, s.last()), s.last())
    }
}

/// The suggestions for the smells, each kept if its confidence reaches `min`.
pub open spec fn smell_suggestions(
    smells: Seq<crate::analyzer::SmellModel>,
    ls: Seq<Seq<char>>,
    lang: Language,
    min: Confidence,
) -> Seq<SuggestionModel>
    decreases smells.len(),
{
    if smells.len() == 0 {
        seq![]
    } else {
        smell_suggestions(smells.drop_last(), ls, lang, min) + match smell_suggestion(
            smells.last(),
            ls,
            lang,
        ) {
            Some(s) => if confidence_rank(s.confidence) >= confidence_rank(min) {
                seq![s]
            } else {
                seq![]
            },
            None => seq![],
        }
    }
}

/// The suggestions for all symbols, in order.
pub open spec fn all_symbol_suggestions(
    syms: Seq<crate::analyzer::SymbolModel>,
    ls: Seq<Seq<char>>,
    lang: Language,
) -> Seq<SuggestionModel>
    decreases syms.len(),
{
    if syms.len() == 0 {
        seq![]
    } else {
        all_symbol_suggestions(syms.drop_last(), ls, lang) + symbol_suggestions(syms.last(), ls, lang)
    }
}

/// The suggestions for a file, before ordering: from smells, from patterns,
/// from symbols.
pub open spec fn candidate_suggestions(
    cfg: RefactoringConfig,
    lang: Language,
    path: Seq<char>,
    smells: Seq<crate::analyzer::SmellModel>,
    syms: Seq<crate::analyzer::SymbolModel>,
    imps: Seq<crate::analyzer::ImportModel>,
    ls: Seq<Seq<char>>,
) -> Seq<SuggestionModel> {
    (smell_suggestions(smells, ls, lang, cfg.min_confidence) + pattern_suggestions(ls, lang, path, imps)
        + all_symbol_suggestions(syms, ls, lang)).filter(confident(cfg.min_confidence))
}

/// Whether a suggestion's confidence reaches `min`.
pub open spec fn confident(min: Confidence) -> spec_fn(SuggestionModel) -> bool {
    |s: SuggestionModel| confidence_rank(s.confidence) >= confidence_rank(min)
}

/// The suggestions for a file: the candidates in priority order, at most
/// `max_suggestions_per_file` of them.
pub open spec fn refactorings_of(
    cfg: RefactoringConfig,
    lang: Language,
    path: Seq<char>,
    smells: Seq<crate::analyzer::SmellModel>,
    syms: Seq<crate::analyzer::SymbolModel>,
    imps: Seq<crate::analyzer::ImportModel>,
    content: Seq<char>,
) -> Seq<SuggestionModel> {
    let sorted = sort_suggestions(
        candidate_suggestions(cfg, lang, path, smells, syms, imps, crate::text::lines(content)),
    );
    if cfg.max_suggestions_per_file < sorted.len() {
        sorted.take(cfg.max_suggestions_per_file as int)
    } else {
        sorted
    }
}

/// Every smell and function symbol names a well-formed range of the lines.
pub open spec fn analysis_ranges_ok(
    smells: Seq<crate::analyzer::SmellModel>,
    syms: Seq<crate::analyzer::SymbolModel>,
    ls: Seq<Seq<char>>,
) -> bool {
    &&& forall|i: int| 0 <= i < smells.len() ==> smell_range_ok(#[trigger] smells[i], ls)
    &&& forall|i: int| 0 <= i < syms.len() ==> symbol_range_ok(#[trigger] syms[i], ls)
}

/// Whether `a` ranks strictly before `b`.
fn ranks_before_exec(a: &RefactoringSuggestion, b: &RefactoringSuggestion) -> (r: bool)
    ensures
        r == ranks_before(a.model(), b.model()),
{
    let ra = rank_of(a.confidence);
    let rb = rank_of(b.confidence);
    ra > rb || (ra == rb && a.impact.maintainability_improvement > b.impact.maintainability_improvement)
}

/// The suggestions whose confidence reaches `min`, in order.
fn keep_confident(v: Vec<RefactoringSuggestion>, min: Confidence) -> (r: Vec<RefactoringSuggestion>)
    ensures
        suggestion_models(r@) == suggestion_models(v@).filter(confident(min)),
{
    let ghost all = suggestion_models(v@);
    let m = rank_of(min);
    let mut rest = v;
    let mut out: Vec<RefactoringSuggestion> = Vec::new();
    let mut k: usize = 0;
    let n = rest.len();
    while rest.len() > 0
        invariant
            n == all.len(),
            k + rest@.len() == n,
            m == confidence_rank(min),
            suggestion_models(rest@) == all.skip(k as int),
            suggestion_models(out@) == all.take(k as int).filter(confident(min)),
        decreases rest@.len(),
    {
        let ghost r0 = rest@;
        let x = rest.remove(0);
        assert(suggestion_models(rest@) =~= suggestion_models(r0).drop_first());
        assert(all[k as int] == x.model()) by {
            assert(suggestion_models(r0)[0] == x.model());
        }
        assert(all.take(k + 1) =~= all.take(k as int).push(all[k as int]));
        proof {
            all.take(k as int).lemma_filter_push(all[k as int], confident(min));
        }
        let ghost o = suggestion_models(out@);
        if rank_of(x.confidence) >= m {
            out.push(x);
            assert(suggestion_models(out@) =~= o.push(all[k as int]));
        }
        assert(all.skip(k + 1) =~= all.skip(k as int).drop_first());
        k += 1;
    }
    assert(all.take(n as int) =~= all);
    out
}

/// The suggestions in priority order (a stable insertion sort).
fn sort_by_priority(v: Vec<RefactoringSuggestion>) -> (r: Vec<RefactoringSuggestion>)
    ensures
        suggestion_models(r@) == sort_suggestions(suggestion_models(v@)),
{
    let ghost all = suggestion_models(v@);
    let mut rest = v;
    let mut out: Vec<RefactoringSuggestion> = Vec::new();
    let mut taken: usize = 0;
    let total = rest.len();
    assert(all.skip(0) =~= all);
    assert(all.take(0) =~= Seq::<SuggestionModel>::empty());
    while rest.len() > 0
        invariant
            taken + rest.len() == total,
            total == all.len(),
            suggestion_models(rest@) == all.skip(taken as int),
            suggestion_models(out@) == sort_suggestions(all.take(taken as int)),
        decreases rest.len(),
    {
        let ghost before = rest@;
        let x = rest.remove(0);
        let ghost xm = x.model();
        assert(suggestion_models(before)[0] == before[0].model());
        assert(all.skip(taken as int)[0] == all[taken as int]);
        assert(xm == all[taken as int]);
        assert(rest@ =~= before.skip(1));
        assert(suggestion_models(rest@) =~= suggestion_models(before).skip(1));
        assert(all.skip(taken as int).skip(1) =~= all.skip(taken + 1));
        let ghost sorted = suggestion_models(out@);
        let mut p: usize = 0;
        assert(sorted.skip(0) =~= sorted);
        while p < out.len() && !ranks_before_exec(&x, &out[p])
            invariant
                p <= out.len(),
                sorted == suggestion_models(out@),
                xm == x.model(),
                insert_pos(sorted, xm) == p + insert_pos(sorted.skip(p as int), xm),
            decreases out.len() - p,
        {
            assert(sorted.skip(p as int).drop_first() =~= sorted.skip(p + 1));
            assert(sorted.skip(p as int)[0] == out@[p as int].model());
            p += 1;
        }
        proof {
            if p < out.len() {
                assert(sorted.skip(p as int)[0] == out@[p as int].model());
            } else {
                assert(sorted.skip(p as int) =~= Seq::<SuggestionModel>::empty());
            }
        }
        out.insert(p, x);
        assert(all.take(taken + 1).drop_last() =~= all.take(taken as int));
        assert(suggestion_models(out@) =~= sorted.insert(p as int, xm));
        taken += 1;
    }
    assert(all.take(total as int) =~= all);
    out
}

impl RefactoringEngine {
    /// Suggests refactorings for a file: from its smells, from patterns in
    /// its content, and from its symbols, keeping those that reach the
    /// minimum confidence; ordered by descending confidence, then descending
    /// maintainability improvement, and cut to the configured maximum.
    pub fn suggest_refactorings(
        &self,
        analysis: &crate::analyzer::FileAnalysis,
        content: &str,
    ) -> (r: Vec<RefactoringSuggestion>)
        requires
            content@.len() <= i32::MAX,
            analysis.imports@.len() <= i32::MAX,
            analysis_ranges_ok(
                crate::analyzer::smell_models(analysis.smells@),
                crate::analyzer::symbol_models(analysis.symbols@),
                crate::text::lines(content@),
            ),
        ensures
            suggestion_models(r@) == refactorings_of(
                self.spec_config(),
                analysis.language,
                analysis.path@,
                crate::analyzer::smell_models(analysis.smells@),
                crate::analyzer::symbol_models(analysis.symbols@),
                crate::analyzer::import_models(analysis.imports@),
                content@,
            ),
            forall|k: int|
                0 <= k < r@.len() ==> confidence_rank(#[trigger] r@[k].confidence) >= confidence_rank(
                    self.spec_config().min_confidence,
                ),
            r@.len() <= self.spec_config().max_suggestions_per_file,
    {
        let cs = chars_of(content);
        let ls = crate::text::lines_of(&cs);
        proof {
            crate::text::lemma_lines_bound(content@);
        }
        let ghost lv = views(ls@);
        let ghost sm = crate::analyzer::smell_models(analysis.smells@);
        let ghost sy = crate::analyzer::symbol_models(analysis.symbols@);
        let language = analysis.language;
        let min = rank_of(self.config.min_confidence);
        let mut suggestions: Vec<RefactoringSuggestion> = Vec::new();
        let mut i: usize = 0;
        while i < analysis.smells.len()
            invariant
                i <= analysis.smells.len(),
                lv == views(ls@),
                lv == crate::text::lines(content@),
                sm == crate::analyzer::smell_models(analysis.smells@),
                forall|q: int| 0 <= q < sm.len() ==> smell_range_ok(#[trigger] sm[q], lv),
                min == confidence_rank(self.spec_config().min_confidence),
                language == analysis.language,
                suggestion_models(suggestions@) == smell_suggestions(
                    sm.take(i as int),
                    lv,
                    language,
                    self.spec_config().min_confidence,
                ),
            decreases analysis.smells.len() - i,
        {
            assert(sm.take(i + 1).drop_last() =~= sm.take(i as int));
            assert(sm.take(i + 1).last() == sm[i as int]);
            assert(smell_range_ok(sm[i as int], lv));
            let ghost o = suggestion_models(suggestions@);
            match self.smell_to_refactoring(&analysis.smells[i], &ls, language) {
                Some(s) => {
                    if rank_of(s.confidence) >= min {
                        suggestions.push(s);
                        assert(suggestion_models(suggestions@) =~= o.push(s.model()));
                    } else {
                        assert(suggestion_models(suggestions@) =~= o + seq![]);
                    }
                },
                None => {
                    assert(suggestion_models(suggestions@) =~= o + seq![]);
                },
            }
            i += 1;
        }
        assert(sm.take(analysis.smells.len() as int) =~= sm);
        let ghost a = suggestion_models(suggestions@);
        let mut pat = self.find_pattern_refactorings(&ls, analysis);
        let ghost b = suggestion_models(pat@);
        suggestions.append(&mut pat);
        assert(suggestion_models(suggestions@) =~= a + b);
        let ghost ab = a + b;
        let mut j: usize = 0;
        while j < analysis.symbols.len()
            invariant
                j <= analysis.symbols.len(),
                lv == views(ls@),
                sy == crate::analyzer::symbol_models(analysis.symbols@),
                forall|q: int| 0 <= q < sy.len() ==> symbol_range_ok(#[trigger] sy[q], lv),
                language == analysis.language,
                suggestion_models(suggestions@) == ab + all_symbol_suggestions(sy.take(j as int), lv, language),
            decreases analysis.symbols.len() - j,
        {
            assert(sy.take(j + 1).drop_last() =~= sy.take(j as int));
            assert(sy.take(j + 1).last() == sy[j as int]);
            assert(symbol_range_ok(sy[j as int], lv));
            let ghost o = suggestion_models(suggestions@);
            let mut more = self.suggest_symbol_refactorings(&analysis.symbols[j], &ls, language);
            let ghost m = suggestion_models(more@);
            suggestions.append(&mut more);
            assert(suggestion_models(suggestions@) =~= o + m);
            assert(ab + all_symbol_suggestions(sy.take(j + 1), lv, language) =~= (ab
                + all_symbol_suggestions(sy.take(j as int), lv, language)) + m);
            j += 1;
        }
        assert(sy.take(analysis.symbols.len() as int) =~= sy);
        let kept = keep_confident(suggestions, self.config.min_confidence);
        let mut sorted = sort_by_priority(kept);
        let ghost so = suggestion_models(sorted@);
        sorted.truncate(self.config.max_suggestions_per_file);
        assert(suggestion_models(sorted@) =~= if self.spec_config().max_suggestions_per_file < so.len() {
            so.take(self.spec_config().max_suggestions_per_file as int)
        } else {
            so
        });
        proof {
            lemma_refactorings_confident(
                self.spec_config(),
                analysis.language,
                analysis.path@,
                sm,
                sy,
                crate::analyzer::import_models(analysis.imports@),
                content@,
            );
            lemma_refactorings_ordered_and_bounded(
                self.spec_config(),
                analysis.language,
                analysis.path@,
                sm,
                sy,
                crate::analyzer::import_models(analysis.imports@),
                content@,
            );
            let rr = refactorings_of(
                self.spec_config(),
                analysis.language,
                analysis.path@,
                sm,
                sy,
                crate::analyzer::import_models(analysis.imports@),
                content@,
            );
            assert(suggestion_models(sorted@) == rr);
            assert forall|k: int| 0 <= k < sorted@.len() implies confidence_rank(
                #[trigger] sorted@[k].confidence,
            ) >= confidence_rank(self.spec_config().min_confidence) by {
                assert(suggestion_models(sorted@)[k] == sorted@[k].model());
                assert(rr[k] == sorted@[k].model());
                assert(confidence_rank(rr[k].confidence) >= confidence_rank(
                    self.spec_config().min_confidence,
                ));
            }
        }
        sorted
    }
}

// ─── Laws of the ordering ────────────────────────────────────────────────────

/// No suggestion ranks before one that comes earlier.
pub open spec fn in_priority_order(s: Seq<SuggestionModel>) -> bool {
    forall|i: int, j: int| 0 <= i < j < s.len() ==> !ranks_before(#[trigger] s[j], #[trigger] s[i])
}

/// Where `x` goes: everything before ranks at least as high, and `x` ranks
/// before what follows.
proof fn lemma_insert_pos(sorted: Seq<SuggestionModel>, x: SuggestionModel)
    ensures
        0 <= insert_pos(sorted, x) <= sorted.len(),
        forall|k: int| 0 <= k < insert_pos(sorted, x) ==> !ranks_before(x, #[trigger] sorted[k]),
        insert_pos(sorted, x) < sorted.len() ==> ranks_before(x, sorted[insert_pos(sorted, x)]),
    decreases sorted.len(),
{
    if sorted.len() > 0 && !ranks_before(x, sorted[0]) {
        lemma_insert_pos(sorted.drop_first(), x);
        assert forall|k: int| 0 <= k < insert_pos(sorted, x) implies !ranks_before(x, #[trigger] sorted[k]) by {
            if k > 0 {
                assert(sorted[k] == sorted.drop_first()[k - 1]);
            }
        }
    }
}

/// Inserting at the insertion position keeps the priority order.
#[verifier::spinoff_prover]
proof fn lemma_insert_keeps_order(sorted: Seq<SuggestionModel>, x: SuggestionModel)
    requires
        in_priority_order(sorted),
    ensures
        in_priority_order(sorted.insert(insert_pos(sorted, x), x)),
{
    let p = insert_pos(sorted, x);
    lemma_insert_pos(sorted, x);
    sorted.insert_ensures(p, x);
    let r = sorted.insert(p, x);
    assert forall|i: int, j: int| 0 <= i < j < r.len() implies !ranks_before(
        #[trigger] r[j],
        #[trigger] r[i],
    ) by {
        if j < p {
            assert(r[i] == sorted[i] && r[j] == sorted[j]);
        } else if j == p {
            assert(r[j] == x && r[i] == sorted[i]);
        } else if i < p {
            assert(r[i] == sorted[i] && r[j] == sorted[j - 1]);
        } else if i == p {
            assert(r[i] == x && r[j] == sorted[j - 1]);
            if j - 1 > p {
                assert(!ranks_before(sorted[j - 1], sorted[p]));
            }
        } else {
            assert(r[i] == sorted[i - 1] && r[j] == sorted[j - 1]);
        }
    }
}

/// The suggestions come out in priority order: by descending confidence,
/// then by descending maintainability improvement.
pub proof fn lemma_sorted_in_priority_order(s: Seq<SuggestionModel>)
    ensures
        in_priority_order(sort_suggestions(s)),
    decreases s.len(),
{
    if s.len() > 0 {
        lemma_sorted_in_priority_order(s.drop_last());
        lemma_insert_keeps_order(sort_suggestions(s.drop_last()), s.last());
    }
}

/// Ordering keeps every suggestion, as often as it occurs, and adds none.
pub proof fn lemma_sort_is_permutation(s: Seq<SuggestionModel>)
    ensures
        sort_suggestions(s).to_multiset() == s.to_multiset(),
    decreases s.len(),
{
    broadcast use vstd::seq_lib::group_to_multiset_ensures;

    if s.len() > 0 {
        lemma_sort_is_permutation(s.drop_last());
        let sorted = sort_suggestions(s.drop_last());
        let x = s.last();
        let p = insert_pos(sorted, x);
        lemma_insert_pos(sorted, x);
        let a = sorted.subrange(0, p);
        let b = sorted.subrange(p, sorted.len() as int);
        assert(sorted =~= a + b);
        vstd::seq_lib::lemma_multiset_commutative(a, b);
        vstd::seq_lib::lemma_multiset_commutative(a.push(x), b);
        assert(sorted.insert(p, x) =~= a.push(x) + b);
        assert(s =~= s.drop_last().push(x));
        assert(sort_suggestions(s).to_multiset() =~= s.to_multiset());
    }
}

/// The suggestions for a file come in priority order, never more than the
/// configured maximum.
pub proof fn lemma_refactorings_ordered_and_bounded(
    cfg: RefactoringConfig,
    lang: Language,
    path: Seq<char>,
    smells: Seq<crate::analyzer::SmellModel>,
    syms: Seq<crate::analyzer::SymbolModel>,
    imps: Seq<crate::analyzer::ImportModel>,
    content: Seq<char>,
)
    ensures
        in_priority_order(refactorings_of(cfg, lang, path, smells, syms, imps, content)),
        refactorings_of(cfg, lang, path, smells, syms, imps, content).len() <= cfg.max_suggestions_per_file,
{
    let c = candidate_suggestions(cfg, lang, path, smells, syms, imps, crate::text::lines(content));
    lemma_sorted_in_priority_order(c);
    let sorted = sort_suggestions(c);
    let r = refactorings_of(cfg, lang, path, smells, syms, imps, content);
    assert forall|i: int, j: int| 0 <= i < j < r.len() implies !ranks_before(#[trigger] r[j], #[trigger] r[i]) by {
        assert(r[i] == sorted[i] && r[j] == sorted[j]);
    }
}

/// Every suggestion for a file reaches the configured minimum confidence.
pub proof fn lemma_refactorings_confident(
    cfg: RefactoringConfig,
    lang: Language,
    path: Seq<char>,
    smells: Seq<crate::analyzer::SmellModel>,
    syms: Seq<crate::analyzer::SymbolModel>,
    imps: Seq<crate::analyzer::ImportModel>,
    content: Seq<char>,
)
    ensures
        forall|k: int|
            0 <= k < refactorings_of(cfg, lang, path, smells, syms, imps, content).len()
                ==> confidence_rank(
                #[trigger] refactorings_of(cfg, lang, path, smells, syms, imps, content)[k].confidence,
            ) >= confidence_rank(cfg.min_confidence),
{
    broadcast use vstd::seq_lib::group_to_multiset_ensures;

    let c = candidate_suggestions(cfg, lang, path, smells, syms, imps, crate::text::lines(content));
    lemma_sort_is_permutation(c);
    let sorted = sort_suggestions(c);
    let r = refactorings_of(cfg, lang, path, smells, syms, imps, content);
    let all = smell_suggestions(smells, crate::text::lines(content), lang, cfg.min_confidence)
        + pattern_suggestions(crate::text::lines(content), lang, path, imps) + all_symbol_suggestions(
        syms,
        crate::text::lines(content),
        lang,
    );
    assert(c == all.filter(confident(cfg.min_confidence)));
    assert forall|k: int| 0 <= k < r.len() implies confidence_rank(#[trigger] r[k].confidence)
        >= confidence_rank(cfg.min_confidence) by {
        assert(r[k] == sorted[k]);
        assert(sorted.contains(sorted[k]));
        assert(sorted.to_multiset().count(sorted[k]) > 0);
        assert(c.contains(sorted[k]));
        let i = choose|i: int| 0 <= i < c.len() && c[i] == sorted[k];
        all.lemma_filter_pred(confident(cfg.min_confidence), i);
    }
}

} // verus!
