//! Code analysis: language detection, line metrics, complexity metrics,
//! symbol and import extraction, and code smell detection.

use crate::pattern::{compile, capture_group, find_all, group_text, regex_compiles, regex_find_all};
use crate::text::{
    begins, buf, chars_of, count_matches, count_str, contains, dec, dec_int, extend_chars,
    extend_str, has_lit, is_ws, join, join_chars, lines, lines_of, parse_i64, parse_i64_spec,
    push_dec, push_dec_i64, split_char, split_on_char, starts_with, str_eq, str_lower,
    str_to_lowercase, string_from_chars, strip_all, strip_all_lit, total_len, trim, trim_chars,
    trim_start, trim_start_chars, utf8_len, utf8_length, views,
};
use vstd::prelude::*;

verus! {

/// Supported programming languages.
#[derive(Debug, Clone, Copy, PartialEq, Eq, Hash, Structural)]
pub enum Language {
    Rust,
    Python,
    JavaScript,
    TypeScript,
    Go,
    Java,
    Unknown,
}

/// The language of a (lowercased) file extension.
pub open spec fn lang_of_ext(e: Seq<char>) -> Language {
    if e == "rs"@ {
        Language::Rust
    } else if e == "py"@ || e == "pyi"@ {
        Language::Python
    } else if e == "js"@ || e == "mjs"@ || e == "cjs"@ || e == "jsx"@ {
        Language::JavaScript
    } else if e == "ts"@ || e == "tsx"@ || e == "mts"@ || e == "cts"@ {
        Language::TypeScript
    } else if e == "go"@ {
        Language::Go
    } else if e == "java"@ {
        Language::Java
    } else {
        Language::Unknown
    }
}

/// The file extensions of a language.
pub open spec fn lang_exts(l: Language) -> Seq<Seq<char>> {
    match l {
        Language::Rust => seq!["rs"@],
        Language::Python => seq!["py"@, "pyi"@],
        Language::JavaScript => seq!["js"@, "mjs"@, "cjs"@, "jsx"@],
        Language::TypeScript => seq!["ts"@, "tsx"@, "mts"@, "cts"@],
        Language::Go => seq!["go"@],
        Language::Java => seq!["java"@],
        Language::Unknown => seq![],
    }
}

/// Every extension listed for a language, in lowercase or in uppercase, is
/// detected as that language.
pub proof fn lemma_extensions_detected(l: Language, i: int)
    requires
        0 <= i < lang_exts(l).len(),
    ensures
        lang_of_ext(str_lower(lang_exts(l)[i])) == l,
        lang_of_ext(str_lower(crate::text::str_upper(lang_exts(l)[i]))) == l,
{
    reveal_strlit("rs");
    reveal_strlit("py");
    reveal_strlit("pyi");
    reveal_strlit("js");
    reveal_strlit("mjs");
    reveal_strlit("cjs");
    reveal_strlit("jsx");
    reveal_strlit("ts");
    reveal_strlit("tsx");
    reveal_strlit("mts");
    reveal_strlit("cts");
    reveal_strlit("go");
    reveal_strlit("java");
    let e = lang_exts(l)[i];
    assert(crate::text::all_ascii(e));
    crate::text::lemma_lower_of_lowercase(e);
    crate::text::lemma_lower_of_upper(e);
    assert(str_lower(e) == e);
    match l {
        Language::Rust => {
            if i == 0 {
                assert(e == "rs"@);
                assert(e[0] != "py"@[0]);
                assert(e[0] != "js"@[0]);
                assert(e[0] != "ts"@[0]);
                assert(e[0] != "go"@[0]);
            }
        },
        Language::Python => {
            if i == 0 {
                assert(e == "py"@);
                assert(e[0] != "rs"@[0]);
                assert(e[0] != "js"@[0]);
                assert(e[0] != "ts"@[0]);
                assert(e[0] != "go"@[0]);
            }
            if i == 1 {
                assert(e == "pyi"@);
                assert(e[0] != "mjs"@[0]);
                assert(e[0] != "cjs"@[0]);
                assert(e[0] != "jsx"@[0]);
                assert(e[0] != "tsx"@[0]);
                assert(e[0] != "mts"@[0]);
                assert(e[0] != "cts"@[0]);
            }
        },
        Language::JavaScript => {
            if i == 0 {
                assert(e == "js"@);
                assert(e[0] != "rs"@[0]);
                assert(e[0] != "py"@[0]);
                assert(e[0] != "ts"@[0]);
                assert(e[0] != "go"@[0]);
            }
            if i == 1 {
                assert(e == "mjs"@);
                assert(e[0] != "pyi"@[0]);
                assert(e[0] != "cjs"@[0]);
                assert(e[0] != "jsx"@[0]);
                assert(e[0] != "tsx"@[0]);
                assert(e[1] != "mts"@[1]);
                assert(e[0] != "cts"@[0]);
            }
            if i == 2 {
                assert(e == "cjs"@);
                assert(e[0] != "pyi"@[0]);
                assert(e[0] != "mjs"@[0]);
                assert(e[0] != "jsx"@[0]);
                assert(e[0] != "tsx"@[0]);
                assert(e[0] != "mts"@[0]);
                assert(e[1] != "cts"@[1]);
            }
            if i == 3 {
                assert(e == "jsx"@);
                assert(e[0] != "pyi"@[0]);
                assert(e[0] != "mjs"@[0]);
                assert(e[0] != "cjs"@[0]);
                assert(e[0] != "tsx"@[0]);
                assert(e[0] != "mts"@[0]);
                assert(e[0] != "cts"@[0]);
            }
        },
        Language::TypeScript => {
            if i == 0 {
                assert(e == "ts"@);
                assert(e[0] != "rs"@[0]);
                assert(e[0] != "py"@[0]);
                assert(e[0] != "js"@[0]);
                assert(e[0] != "go"@[0]);
            }
            if i == 1 {
                assert(e == "tsx"@);
                assert(e[0] != "pyi"@[0]);
                assert(e[0] != "mjs"@[0]);
                assert(e[0] != "cjs"@[0]);
                assert(e[0] != "jsx"@[0]);
                assert(e[0] != "mts"@[0]);
                assert(e[0] != "cts"@[0]);
            }
            if i == 2 {
                assert(e == "mts"@);
                assert(e[0] != "pyi"@[0]);
                assert(e[1] != "mjs"@[1]);
                assert(e[0] != "cjs"@[0]);
                assert(e[0] != "jsx"@[0]);
                assert(e[0] != "tsx"@[0]);
                assert(e[0] != "cts"@[0]);
            }
            if i == 3 {
                assert(e == "cts"@);
                assert(e[0] != "pyi"@[0]);
                assert(e[0] != "mjs"@[0]);
                assert(e[1] != "cjs"@[1]);
                assert(e[0] != "jsx"@[0]);
                assert(e[0] != "tsx"@[0]);
                assert(e[0] != "mts"@[0]);
            }
        },
        Language::Go => {
            if i == 0 {
                assert(e == "go"@);
                assert(e[0] != "rs"@[0]);
                assert(e[0] != "py"@[0]);
                assert(e[0] != "js"@[0]);
                assert(e[0] != "ts"@[0]);
            }
        },
        Language::Java => {
            if i == 0 {
                assert(e == "java"@);
            }
        },
        Language::Unknown => {},
    }
}

/// Views of a sequence of string slices.
pub open spec fn str_views(v: Seq<&str>) -> Seq<Seq<char>> {
    v.map_values(|s: &str| s@)
}

impl Language {
    /// Detects the language from a file extension, ignoring case.
    pub fn from_extension(ext: &str) -> (r: Language)
        ensures
            r == lang_of_ext(str_lower(ext@)),
    {
        let lower = str_to_lowercase(ext);
        let e = lower.as_str();
        if str_eq(e, "rs") {
            Language::Rust
        } else if str_eq(e, "py") || str_eq(e, "pyi") {
            Language::Python
        } else if str_eq(e, "js") || str_eq(e, "mjs") || str_eq(e, "cjs") || str_eq(e, "jsx") {
            Language::JavaScript
        } else if str_eq(e, "ts") || str_eq(e, "tsx") || str_eq(e, "mts") || str_eq(e, "cts") {
            Language::TypeScript
        } else if str_eq(e, "go") {
            Language::Go
        } else if str_eq(e, "java") {
            Language::Java
        } else {
            Language::Unknown
        }
    }

    /// The file extensions used by this language.
    pub fn extensions(&self) -> (r: Vec<&'static str>)
        ensures
            str_views(r@) == lang_exts(*self),
    {
        let r = match self {
            Language::Rust => vec!["rs"],
            Language::Python => vec!["py", "pyi"],
            Language::JavaScript => vec!["js", "mjs", "cjs", "jsx"],
            Language::TypeScript => vec!["ts", "tsx", "mts", "cts"],
            Language::Go => vec!["go"],
            Language::Java => vec!["java"],
            Language::Unknown => vec![],
        };
        assert(str_views(r@) =~= lang_exts(*self));
        r
    }
}

/// Code complexity metrics.
#[derive(Debug, Clone, Copy, PartialEq, Eq, Structural)]
pub struct ComplexityMetrics {
    /// Cyclomatic complexity.
    pub cyclomatic: u32,
    /// Cognitive complexity.
    pub cognitive: u32,
    /// Lines of code.
    pub loc: u32,
    /// Source lines (excluding blanks and comments).
    pub sloc: u32,
    /// Comment lines.
    pub comment_lines: u32,
    /// Blank lines.
    pub blank_lines: u32,
    /// Maximum nesting depth.
    pub max_nesting: u32,
    /// Number of parameters (for functions).
    pub parameter_count: u32,
}

/// Complexity rating categories.
#[derive(Debug, Clone, Copy, PartialEq, Eq, Structural)]
pub enum ComplexityRating {
    Low,
    Moderate,
    High,
    VeryHigh,
}

/// The rating of a cyclomatic complexity.
pub open spec fn rating_of(c: u32) -> ComplexityRating {
    if c <= 10 {
        ComplexityRating::Low
    } else if c <= 20 {
        ComplexityRating::Moderate
    } else if c <= 50 {
        ComplexityRating::High
    } else {
        ComplexityRating::VeryHigh
    }
}

impl Default for ComplexityMetrics {
    /// All metrics zero.
    fn default() -> (r: ComplexityMetrics)
        ensures
            r.cyclomatic == 0 && r.cognitive == 0 && r.loc == 0 && r.sloc == 0 && r.comment_lines
                == 0 && r.blank_lines == 0 && r.max_nesting == 0 && r.parameter_count == 0,
    {
        ComplexityMetrics {
            cyclomatic: 0,
            cognitive: 0,
            loc: 0,
            sloc: 0,
            comment_lines: 0,
            blank_lines: 0,
            max_nesting: 0,
            parameter_count: 0,
        }
    }
}

impl ComplexityMetrics {
    /// The complexity rating: low up to 10, moderate up to 20, high up to 50.
    pub fn rating(&self) -> (r: ComplexityRating)
        ensures
            r == rating_of(self.cyclomatic),
    {
        if self.cyclomatic <= 10 {
            ComplexityRating::Low
        } else if self.cyclomatic <= 20 {
            ComplexityRating::Moderate
        } else if self.cyclomatic <= 50 {
            ComplexityRating::High
        } else {
            ComplexityRating::VeryHigh
        }
    }
}

/// Types of code smells.
#[derive(Debug, Clone, Copy, PartialEq, Eq, Structural)]
pub enum CodeSmellType {
    LongFunction,
    LongParameterList,
    DeepNesting,
    DuplicateCode,
    LargeClass,
    GodClass,
    FeatureEnvy,
    DataClumps,
    PrimitiveObsession,
    DeadCode,
    CommentedCode,
    MagicNumbers,
    HardcodedStrings,
    MissingDocumentation,
    InconsistentNaming,
    ComplexConditional,
    LongChain,
    TooManyImports,
}

/// Severity levels for issues.
#[derive(Debug, Clone, Copy, PartialEq, Eq, PartialOrd, Ord, Structural)]
pub enum Severity {
    Info,
    Warning,
    Error,
    Critical,
}

/// A detected code smell or issue.
#[derive(Debug, Clone)]
pub struct CodeSmell {
    /// Type of smell.
    pub smell_type: CodeSmellType,
    /// Severity level.
    pub severity: Severity,
    /// Human-readable message.
    pub message: String,
    /// File location.
    pub file: String,
    /// Line number (1-indexed).
    pub line: u32,
    /// Column number (1-indexed).
    pub column: u32,
    /// End line.
    pub end_line: u32,
    /// End column.
    pub end_column: u32,
    /// Suggested fix.
    pub suggestion: Option<String>,
    /// Related code snippet.
    pub snippet: Option<String>,
}

/// Types of code symbols.
#[derive(Debug, Clone, Copy, PartialEq, Eq, Structural)]
pub enum SymbolKind {
    Module,
    Class,
    Struct,
    Enum,
    Interface,
    Trait,
    Function,
    Method,
    Constructor,
    Variable,
    Constant,
    Field,
    Property,
    Parameter,
    TypeParameter,
    Import,
}

/// Visibility levels.
#[derive(Debug, Clone, Copy, PartialEq, Eq, Structural)]
pub enum Visibility {
    Public,
    Protected,
    Private,
    Internal,
    Unknown,
}

/// A code symbol (function, class, variable, ...).
#[derive(Debug)]
pub struct CodeSymbol {
    /// Symbol name.
    pub name: String,
    /// Symbol kind.
    pub kind: SymbolKind,
    /// Fully qualified name.
    pub qualified_name: String,
    /// Documentation string.
    pub documentation: Option<String>,
    /// Start line.
    pub start_line: u32,
    /// End line.
    pub end_line: u32,
    /// Visibility.
    pub visibility: Visibility,
    /// Complexity metrics (for functions).
    pub metrics: Option<ComplexityMetrics>,
    /// Child symbols.
    pub children: Vec<CodeSymbol>,
    /// Type signature.
    pub signature: Option<String>,
}

/// Import information.
#[derive(Debug, Clone)]
pub struct ImportInfo {
    /// Module or package being imported.
    pub module: String,
    /// Specific items imported (if any).
    pub items: Vec<String>,
    /// Whether it is a wildcard import.
    pub is_wildcard: bool,
    /// Line number.
    pub line: u32,
}

/// Code analyzer configuration.
#[derive(Debug, Clone)]
pub struct AnalyzerConfig {
    /// Maximum cyclomatic complexity before warning.
    pub max_complexity: u32,
    /// Maximum function length (lines).
    pub max_function_length: u32,
    /// Maximum parameter count.
    pub max_parameters: u32,
    /// Maximum nesting depth.
    pub max_nesting: u32,
    /// Maximum file length.
    pub max_file_length: u32,
    /// Patterns to ignore.
    pub ignore_patterns: Vec<String>,
    /// Languages to analyze.
    pub languages: Vec<Language>,
    /// Enable duplicate detection.
    pub detect_duplicates: bool,
    /// Minimum duplicate length (tokens).
    pub min_duplicate_tokens: u32,
}

/// The default ignore patterns.
pub open spec fn default_ignore_patterns() -> Seq<Seq<char>> {
    seq![
        "**/node_modules/**"@,
        "**/target/**"@,
        "**/.git/**"@,
        "**/vendor/**"@,
        "**/__pycache__/**"@,
    ]
}

/// The languages analyzed by default.
pub open spec fn default_languages() -> Seq<Language> {
    seq![
        Language::Rust,
        Language::Python,
        Language::JavaScript,
        Language::TypeScript,
        Language::Go,
        Language::Java,
    ]
}

/// The default analyzer configuration.
pub open spec fn is_default_config(c: AnalyzerConfig) -> bool {
    &&& c.max_complexity == 15
    &&& c.max_function_length == 50
    &&& c.max_parameters == 5
    &&& c.max_nesting == 4
    &&& c.max_file_length == 500
    &&& crate::text::string_views(c.ignore_patterns@) == default_ignore_patterns()
    &&& c.languages@ == default_languages()
    &&& c.detect_duplicates
    &&& c.min_duplicate_tokens == 50
}

impl Default for AnalyzerConfig {
    /// The default configuration.
    fn default() -> (r: AnalyzerConfig)
        ensures
            is_default_config(r),
    {
        let mut pats: Vec<String> = Vec::new();
        pats.push(crate::text::owned("**/node_modules/**"));
        pats.push(crate::text::owned("**/target/**"));
        pats.push(crate::text::owned("**/.git/**"));
        pats.push(crate::text::owned("**/vendor/**"));
        pats.push(crate::text::owned("**/__pycache__/**"));
        let langs = vec![
            Language::Rust,
            Language::Python,
            Language::JavaScript,
            Language::TypeScript,
            Language::Go,
            Language::Java,
        ];
        let r = AnalyzerConfig {
            max_complexity: 15,
            max_function_length: 50,
            max_parameters: 5,
            max_nesting: 4,
            max_file_length: 500,
            ignore_patterns: pats,
            languages: langs,
            detect_duplicates: true,
            min_duplicate_tokens: 50,
        };
        assert(crate::text::string_views(r.ignore_patterns@) =~= default_ignore_patterns());
        assert(r.languages@ =~= default_languages());
        r
    }
}

/// Analyzer errors.
#[derive(Debug, Clone)]
pub enum AnalyzerError {
    /// Reading a file failed.
    Io(String),
    /// The content could not be parsed.
    Parse { file: String, message: String },
    /// The language is not supported.
    UnsupportedLanguage(Language),
    /// The configuration is invalid.
    Config(String),
}

/// The main code analyzer.
pub struct CodeAnalyzer {
    config: AnalyzerConfig,
}

// ─── Line classification ─────────────────────────────────────────────────────

/// One step of comment classification: whether the (trimmed) line is a comment,
/// and whether a multi-line comment is open after it.
pub open spec fn comment_step(line: Seq<char>, lang: Language, in_multiline: bool) -> (bool, bool) {
    match lang {
        Language::Python => {
            if in_multiline {
                (true, !(contains(line, "\"\"\""@) || contains(line, "'''"@)))
            } else if starts_with(line, "#"@) {
                (true, in_multiline)
            } else if starts_with(line, "\"\"\""@) || starts_with(line, "'''"@) {
                (true, !(count_matches(line, "\"\"\""@) >= 2 || count_matches(line, "'''"@) >= 2))
            } else {
                (false, in_multiline)
            }
        },
        Language::Unknown => (false, in_multiline),
        _ => {
            if in_multiline {
                (true, !contains(line, "*/"@))
            } else if starts_with(line, "//"@) {
                (true, in_multiline)
            } else if starts_with(line, "/*"@) {
                (true, !contains(line, "*/"@))
            } else {
                (false, in_multiline)
            }
        },
    }
}

/// Blank and comment line counts over a sequence of lines, with the
/// multi-line comment state after the last line.
pub open spec fn line_counts(ls: Seq<Seq<char>>, lang: Language) -> (nat, nat, bool)
    decreases ls.len(),
{
    if ls.len() == 0 {
        (0, 0, false)
    } else {
        let prev = line_counts(ls.drop_last(), lang);
        let t = trim(ls.last());
        if t.len() == 0 {
            (prev.0 + 1, prev.1, prev.2)
        } else {
            let step = comment_step(t, lang, prev.2);
            (prev.0, prev.1 + if step.0 { 1nat } else { 0nat }, step.1)
        }
    }
}

/// The keywords counted by the cyclomatic complexity of a language.
pub open spec fn cyclomatic_keywords(lang: Language) -> Seq<Seq<char>> {
    match lang {
        Language::Rust => seq![
            "if"@, "else if"@, "while"@, "for"@, "loop"@, "match"@, "&&"@, "||"@, "?"@,
        ],
        Language::Python => seq!["if"@, "elif"@, "while"@, "for"@, "and"@, "or"@, "except"@, "with"@],
        Language::JavaScript | Language::TypeScript => seq![
            "if"@, "else if"@, "while"@, "for"@, "switch"@, "case"@, "catch"@, "&&"@, "||"@,
            "?"@, "?."@,
        ],
        Language::Go => seq!["if"@, "else if"@, "for"@, "switch"@, "case"@, "select"@, "&&"@, "||"@],
        Language::Java => seq![
            "if"@, "else if"@, "while"@, "for"@, "switch"@, "case"@, "catch"@, "&&"@, "||"@, "?"@,
        ],
        Language::Unknown => seq![],
    }
}

/// The sum of the occurrence counts of the keywords in `content`.
pub open spec fn keyword_total(content: Seq<char>, kws: Seq<Seq<char>>) -> nat
    decreases kws.len(),
{
    if kws.len() == 0 {
        0
    } else {
        keyword_total(content, kws.drop_last()) + count_matches(content, kws.last())
    }
}

/// Cyclomatic complexity: one plus the number of branching keywords.
pub open spec fn cyclomatic_of(content: Seq<char>, lang: Language) -> nat {
    1 + keyword_total(content, cyclomatic_keywords(lang))
}

/// The control keywords counted by the cognitive complexity of a language.
pub open spec fn control_keywords(lang: Language) -> Seq<Seq<char>> {
    match lang {
        Language::Rust => seq!["if "@, "else "@, "while "@, "for "@, "loop "@, "match "@],
        Language::Python => seq!["if "@, "elif "@, "else:"@, "while "@, "for "@, "try:"@, "except "@],
        Language::JavaScript | Language::TypeScript | Language::Java => seq![
            "if "@, "else "@, "while "@, "for "@, "switch "@, "try "@, "catch "@,
        ],
        Language::Go => seq!["if "@, "else "@, "for "@, "switch "@, "select "@],
        Language::Unknown => seq![],
    }
}

/// Whether a trimmed line uses a control keyword: it starts with it, or
/// contains it after a space.
pub open spec fn uses_keyword(t: Seq<char>, kw: Seq<char>) -> bool {
    starts_with(t, kw) || contains(t, seq![' '] + kw)
}

/// The number of control keywords that a trimmed line uses.
pub open spec fn keywords_used(t: Seq<char>, kws: Seq<Seq<char>>) -> nat
    decreases kws.len(),
{
    if kws.len() == 0 {
        0
    } else {
        keywords_used(t, kws.drop_last()) + if uses_keyword(t, kws.last()) { 1nat } else { 0nat }
    }
}

/// Occurrences of a character.
pub open spec fn char_count(s: Seq<char>, c: char) -> nat
    decreases s.len(),
{
    if s.len() == 0 {
        0
    } else {
        char_count(s.drop_last(), c) + if s.last() == c { 1nat } else { 0nat }
    }
}

/// Nesting after a line: increased by its opening brackets (saturating at
/// `u32::MAX`), then decreased by its closing ones (saturating at zero).
pub open spec fn next_nesting(nesting: nat, t: Seq<char>) -> nat {
    let opens = (char_count(t, '{') + char_count(t, '(')) as u32;
    let closes = (char_count(t, '}') + char_count(t, ')')) as u32;
    let up = if nesting + opens > u32::MAX { u32::MAX as nat } else { (nesting + opens) as nat };
    if up < closes { 0 } else { (up - closes) as nat }
}

/// Cognitive complexity and nesting after the given lines: every control
/// keyword a line uses costs one plus the nesting before that line.
pub open spec fn cognitive_state(ls: Seq<Seq<char>>, lang: Language) -> (nat, nat)
    decreases ls.len(),
{
    if ls.len() == 0 {
        (0, 0)
    } else {
        let prev = cognitive_state(ls.drop_last(), lang);
        let t = trim(ls.last());
        (prev.0 + keywords_used(t, control_keywords(lang)) * (1 + prev.1), next_nesting(prev.1, t))
    }
}

/// Cognitive complexity of the content.
pub open spec fn cognitive_of(content: Seq<char>, lang: Language) -> nat {
    cognitive_state(lines(content), lang).0
}

/// The bracket nesting that the lines leave, starting from none: each
/// line moves it as its brackets say.
pub open spec fn nesting_after(ls: Seq<Seq<char>>) -> nat
    decreases ls.len(),
{
    if ls.len() == 0 {
        0
    } else {
        next_nesting(nesting_after(ls.drop_last()), trim(ls.last()))
    }
}

/// Cognitive complexity charges every control keyword on a line one plus
/// the nesting that the earlier lines leave: a line with `k` keywords after
/// lines that leave nesting `d` adds `k * (1 + d)`, so a keyword costs more
/// the deeper it stands, and a line without keywords adds nothing.
pub proof fn lemma_cognitive_line_cost(ls: Seq<Seq<char>>, line: Seq<char>, lang: Language)
    ensures
        cognitive_state(ls.push(line), lang).0 == cognitive_state(ls, lang).0 + keywords_used(
            trim(line),
            control_keywords(lang),
        ) * (1 + nesting_after(ls)),
        cognitive_state(ls.push(line), lang).0 >= cognitive_state(ls, lang).0 + keywords_used(
            trim(line),
            control_keywords(lang),
        ),
        nesting_after(ls) > 0 && keywords_used(trim(line), control_keywords(lang)) > 0 ==> cognitive_state(
            ls.push(line),
            lang,
        ).0 > cognitive_state(ls, lang).0 + keywords_used(trim(line), control_keywords(lang)),
    decreases ls.len(),
{
    lemma_cognitive_nesting(ls, lang);
    assert(ls.push(line).drop_last() =~= ls);
    let k = keywords_used(trim(line), control_keywords(lang));
    let d = nesting_after(ls);
    assert(k * (1 + d) == k + k * d) by (nonlinear_arith);
    assert(k * d >= 0) by (nonlinear_arith)
        requires
            k >= 0,
            d >= 0,
    ;
    assert(d > 0 && k > 0 ==> k * d > 0) by (nonlinear_arith);
}

/// A line uses a keyword of the list as soon as it uses one of them.
proof fn lemma_keyword_counted(t: Seq<char>, kws: Seq<Seq<char>>, i: int)
    requires
        0 <= i < kws.len(),
        uses_keyword(t, kws[i]),
    ensures
        keywords_used(t, kws) >= 1,
    decreases kws.len(),
{
    if i < kws.len() - 1 {
        lemma_keyword_counted(t, kws.drop_last(), i);
    }
}

/// In every language with control keywords, a line that starts with `if `
/// uses at least one of them.
pub proof fn lemma_if_line_counts(t: Seq<char>, lang: Language)
    requires
        lang != Language::Unknown,
        starts_with(t, "if "@),
    ensures
        keywords_used(t, control_keywords(lang)) >= 1,
{
    assert(control_keywords(lang)[0] == "if "@);
    lemma_keyword_counted(t, control_keywords(lang), 0);
}

/// Brackets move the nesting: a line without brackets keeps it; one more
/// opening bracket on a line without closing ones raises it by one (below
/// the cap); one more closing bracket on a line without opening ones lowers
/// it by one, but not below zero.
pub proof fn lemma_nesting_moves(d: nat, t: Seq<char>, c: char)
    requires
        d + char_count(t, '{') + char_count(t, '(') + 1 <= u32::MAX,
        char_count(t, '}') + char_count(t, ')') + 1 <= u32::MAX,
    ensures
        char_count(t, '{') == 0 && char_count(t, '(') == 0 && char_count(t, '}') == 0 && char_count(t, ')')
            == 0 ==> next_nesting(d, t) == d,
        (c == '{' || c == '(') && char_count(t, '}') == 0 && char_count(t, ')') == 0 ==> next_nesting(
            d,
            t.push(c),
        ) == next_nesting(d, t) + 1,
        (c == '}' || c == ')') && char_count(t, '{') == 0 && char_count(t, '(') == 0 ==> next_nesting(
            d,
            t.push(c),
        ) == if next_nesting(d, t) > 0 {
            (next_nesting(d, t) - 1) as nat
        } else {
            0nat
        },
{
    assert(t.push(c).drop_last() =~= t);
    assert(t.push(c).last() == c);
}

/// The nesting that cognitive complexity charges for is the nesting the
/// lines leave.
proof fn lemma_cognitive_nesting(ls: Seq<Seq<char>>, lang: Language)
    ensures
        cognitive_state(ls, lang).1 == nesting_after(ls),
    decreases ls.len(),
{
    if ls.len() > 0 {
        lemma_cognitive_nesting(ls.drop_last(), lang);
    }
}

/// Maximum bracket nesting and the nesting after the given characters.
pub open spec fn nesting_state(s: Seq<char>) -> (nat, nat)
    decreases s.len(),
{
    if s.len() == 0 {
        (0, 0)
    } else {
        let prev = nesting_state(s.drop_last());
        let c = s.last();
        if c == '{' || c == '(' || c == '[' {
            let cur = prev.1 + 1;
            (if cur > prev.0 { cur } else { prev.0 }, cur)
        } else if c == '}' || c == ')' || c == ']' {
            (prev.0, if prev.1 == 0 { 0 } else { (prev.1 - 1) as nat })
        } else {
            prev
        }
    }
}

/// Maximum bracket nesting depth of the content.
pub open spec fn max_nesting_of(content: Seq<char>) -> nat {
    nesting_state(content).0
}

proof fn lemma_nesting_bound(s: Seq<char>)
    ensures
        nesting_state(s).1 <= nesting_state(s).0 <= s.len(),
    decreases s.len(),
{
    if s.len() > 0 {
        lemma_nesting_bound(s.drop_last());
    }
}

proof fn lemma_keyword_total_mono(content: Seq<char>, kws: Seq<Seq<char>>, i: int)
    requires
        0 <= i <= kws.len(),
    ensures
        keyword_total(content, kws.take(i)) <= keyword_total(content, kws),
    decreases kws.len(),
{
    if i < kws.len() {
        assert(kws.drop_last().take(i) == kws.take(i));
        lemma_keyword_total_mono(content, kws.drop_last(), i);
    } else {
        assert(kws.take(i) == kws);
    }
}

proof fn lemma_cognitive_mono(ls: Seq<Seq<char>>, lang: Language, i: int)
    requires
        0 <= i <= ls.len(),
    ensures
        cognitive_state(ls.take(i), lang).0 <= cognitive_state(ls, lang).0,
    decreases ls.len(),
{
    if i < ls.len() {
        assert(ls.drop_last().take(i) == ls.take(i));
        lemma_cognitive_mono(ls.drop_last(), lang, i);
    } else {
        assert(ls.take(i) == ls);
    }
}

/// The keyword literals of the cyclomatic complexity.
fn cyclomatic_keyword_list(lang: Language) -> (r: Vec<&'static str>)
    ensures
        str_views(r@) == cyclomatic_keywords(lang),
{
    let r = match lang {
        Language::Rust => vec!["if", "else if", "while", "for", "loop", "match", "&&", "||", "?"],
        Language::Python => vec!["if", "elif", "while", "for", "and", "or", "except", "with"],
        Language::JavaScript | Language::TypeScript => vec![
            "if",
            "else if",
            "while",
            "for",
            "switch",
            "case",
            "catch",
            "&&",
            "||",
            "?",
            "?.",
        ],
        Language::Go => vec!["if", "else if", "for", "switch", "case", "select", "&&", "||"],
        Language::Java => vec![
            "if",
            "else if",
            "while",
            "for",
            "switch",
            "case",
            "catch",
            "&&",
            "||",
            "?",
        ],
        Language::Unknown => vec![],
    };
    assert(str_views(r@) =~= cyclomatic_keywords(lang));
    r
}

/// The keyword literals of the cognitive complexity.
fn control_keyword_list(lang: Language) -> (r: Vec<&'static str>)
    ensures
        str_views(r@) == control_keywords(lang),
{
    let r = match lang {
        Language::Rust => vec!["if ", "else ", "while ", "for ", "loop ", "match "],
        Language::Python => vec!["if ", "elif ", "else:", "while ", "for ", "try:", "except "],
        Language::JavaScript | Language::TypeScript | Language::Java => vec![
            "if ",
            "else ",
            "while ",
            "for ",
            "switch ",
            "try ",
            "catch ",
        ],
        Language::Go => vec!["if ", "else ", "for ", "switch ", "select "],
        Language::Unknown => vec![],
    };
    assert(str_views(r@) =~= control_keywords(lang));
    r
}

impl CodeAnalyzer {
    /// The analyzer's configuration.
    pub closed spec fn spec_config(&self) -> AnalyzerConfig {
        self.config
    }

    /// An analyzer with the default configuration.
    pub fn new() -> (r: CodeAnalyzer)
        ensures
            is_default_config(r.spec_config()),
    {
        CodeAnalyzer { config: AnalyzerConfig::default() }
    }

    /// An analyzer with the given configuration.
    pub fn with_config(config: AnalyzerConfig) -> (r: CodeAnalyzer)
        ensures
            r.spec_config() == config,
    {
        CodeAnalyzer { config }
    }

    /// Classifies a trimmed line as comment or not, updating the multi-line
    /// comment state.
    pub fn is_comment_line(&self, line: &[char], language: Language, in_multiline: &mut bool) -> (r:
        bool)
        ensures
            (r, *final(in_multiline)) == comment_step(line@, language, *old(in_multiline)),
    {
        match language {
            Language::Python => {
                if *in_multiline {
                    if has_lit(line, "\"\"\"") || has_lit(line, "'''") {
                        *in_multiline = false;
                    }
                    return true;
                }
                if begins(line, "#") {
                    return true;
                }
                if begins(line, "\"\"\"") || begins(line, "'''") {
                    *in_multiline = !(count_str(line, "\"\"\"") >= 2 || count_str(line, "'''")
                        >= 2);
                    return true;
                }
                false
            },
            Language::Unknown => false,
            _ => {
                if *in_multiline {
                    if has_lit(line, "*/") {
                        *in_multiline = false;
                    }
                    return true;
                }
                if begins(line, "//") {
                    return true;
                }
                if begins(line, "/*") {
                    *in_multiline = !has_lit(line, "*/");
                    return true;
                }
                false
            },
        }
    }

    /// Blank lines, comment lines and the final comment state of the given lines.
    pub fn count_lines(&self, ls: &[Vec<char>], language: Language) -> (r: (usize, usize))
        ensures
            r.0 == line_counts(views(ls@), language).0,
            r.1 == line_counts(views(ls@), language).1,
            r.0 + r.1 <= ls@.len(),
    {
        let mut blank: usize = 0;
        let mut comment: usize = 0;
        let mut state = false;
        let mut i: usize = 0;
        while i < ls.len()
            invariant
                i <= ls.len(),
                blank + comment <= i,
                (blank as nat, comment as nat, state) == line_counts(views(ls@.take(i as int)), language),
            decreases ls.len() - i,
        {
            proof {
                let v = views(ls@.take(i + 1));
                assert(v.drop_last() =~= views(ls@.take(i as int)));
                assert(v.last() == ls@[i as int]@);
            }
            let t = trim_chars(&ls[i]);
            if t.len() == 0 {
                blank += 1;
            } else {
                let c = self.is_comment_line(&t, language, &mut state);
                if c {
                    comment += 1;
                }
            }
            i += 1;
        }
        assert(ls@.take(ls.len() as int) =~= ls@);
        (blank, comment)
    }

    /// Cyclomatic complexity: one plus the occurrence counts of the branching
    /// keywords of the language.
    pub fn calculate_cyclomatic(&self, content: &[char], language: Language) -> (r: u32)
        requires
            cyclomatic_of(content@, language) <= u32::MAX,
        ensures
            r == cyclomatic_of(content@, language),
    {
        let kws = cyclomatic_keyword_list(language);
        let ghost kv = str_views(kws@);
        let mut complexity: u32 = 1;
        let mut i: usize = 0;
        while i < kws.len()
            invariant
                i <= kws.len(),
                kv == str_views(kws@),
                kv == cyclomatic_keywords(language),
                1 + keyword_total(content@, kv) <= u32::MAX,
                complexity == 1 + keyword_total(content@, kv.take(i as int)),
            decreases kws.len() - i,
        {
            proof {
                assert(kv.take(i + 1).drop_last() =~= kv.take(i as int));
                lemma_keyword_total_mono(content@, kv, i + 1);
                assert(kv[i as int] == kws@[i as int]@);
            }
            let n = count_str(content, kws[i]);
            complexity = complexity + n as u32;
            i += 1;
        }
        assert(kv.take(kws.len() as int) =~= kv);
        complexity
    }

    /// Cognitive complexity: for each line, every control keyword it uses costs
    /// one plus the current bracket nesting.
    pub fn calculate_cognitive(&self, content: &[char], language: Language) -> (r: u32)
        requires
            cognitive_of(content@, language) <= u32::MAX,
        ensures
            r == cognitive_of(content@, language),
    {
        let ls = lines_of(content);
        let kws = control_keyword_list(language);
        let ghost lv = views(ls@);
        let mut complexity: u32 = 0;
        let mut nesting: u32 = 0;
        let mut i: usize = 0;
        while i < ls.len()
            invariant
                i <= ls.len(),
                lv == views(ls@),
                lv == lines(content@),
                str_views(kws@) == control_keywords(language),
                cognitive_state(lv, language).0 <= u32::MAX,
                (complexity as nat, nesting as nat) == cognitive_state(lv.take(i as int), language),
            decreases ls.len() - i,
        {
            proof {
                assert(lv.take(i + 1).drop_last() =~= lv.take(i as int));
                assert(lv.take(i + 1).last() == ls@[i as int]@);
                lemma_cognitive_mono(lv, language, i + 1);
            }
            let t = trim_chars(&ls[i]);
            let used = count_keywords_used(&t, &kws);
            let ghost step = (used as nat) * (1 + nesting as nat);
            assert(complexity + step <= u32::MAX);
            assert(0 <= used as nat * (1 + nesting as nat)) by (nonlinear_arith);
            assert(used as nat <= used as nat * (1 + nesting as nat)) by (nonlinear_arith);
            let add: u64 = (used as u64) * (1 + nesting as u64);
            complexity = complexity + add as u32;
            let (opens, closes) = bracket_counts(&t);
            let o32: u32 = #[verifier::truncate] (opens as u32);
            let c32: u32 = #[verifier::truncate] (closes as u32);
            nesting = nesting.saturating_add(o32).saturating_sub(c32);
            i += 1;
        }
        assert(lv.take(ls.len() as int) =~= lv);
        complexity
    }

    /// Maximum bracket nesting depth of the content.
    pub fn calculate_max_nesting(&self, content: &[char], _language: Language) -> (r: u32)
        requires
            content@.len() <= u32::MAX,
        ensures
            r == max_nesting_of(content@),
    {
        let mut max_nesting: u32 = 0;
        let mut current: u32 = 0;
        let mut i: usize = 0;
        while i < content.len()
            invariant
                i <= content.len(),
                content@.len() <= u32::MAX,
                (max_nesting as nat, current as nat) == nesting_state(content@.take(i as int)),
            decreases content.len() - i,
        {
            proof {
                assert(content@.take(i + 1).drop_last() =~= content@.take(i as int));
                lemma_nesting_bound(content@.take(i as int));
            }
            let c = content[i];
            if c == '{' || c == '(' || c == '[' {
                current = current + 1;
                if current > max_nesting {
                    max_nesting = current;
                }
            } else if c == '}' || c == ')' || c == ']' {
                current = current.saturating_sub(1);
            }
            i += 1;
        }
        assert(content@.take(content.len() as int) =~= content@);
        max_nesting
    }
}

/// Opening (`{`, `(`) and closing (`}`, `)`) bracket counts of a line.
fn bracket_counts(s: &[char]) -> (r: (usize, usize))
    ensures
        r.0 == char_count(s@, '{') + char_count(s@, '('),
        r.1 == char_count(s@, '}') + char_count(s@, ')'),
{
    let mut opens: usize = 0;
    let mut closes: usize = 0;
    let mut i: usize = 0;
    while i < s.len()
        invariant
            i <= s.len(),
            opens + closes <= i,
            opens == char_count(s@.take(i as int), '{') + char_count(s@.take(i as int), '('),
            closes == char_count(s@.take(i as int), '}') + char_count(s@.take(i as int), ')'),
        decreases s.len() - i,
    {
        assert(s@.take(i + 1).drop_last() =~= s@.take(i as int));
        if s[i] == '{' || s[i] == '(' {
            opens += 1;
        } else if s[i] == '}' || s[i] == ')' {
            closes += 1;
        }
        i += 1;
    }
    assert(s@.take(s.len() as int) =~= s@);
    (opens, closes)
}

/// The number of keywords a trimmed line uses.
fn count_keywords_used(t: &[char], kws: &Vec<&'static str>) -> (r: usize)
    ensures
        r == keywords_used(t@, str_views(kws@)),
        r <= kws@.len(),
{
    let ghost kv = str_views(kws@);
    let mut n: usize = 0;
    let mut i: usize = 0;
    while i < kws.len()
        invariant
            i <= kws.len(),
            kv == str_views(kws@),
            n <= i,
            n == keywords_used(t@, kv.take(i as int)),
        decreases kws.len() - i,
    {
        proof {
            assert(kv.take(i + 1).drop_last() =~= kv.take(i as int));
            assert(kv.take(i + 1).last() == kws@[i as int]@);
        }
        let kw = kws[i];
        let mut spaced = vec![' '];
        assert(spaced@ =~= seq![' ']);
        extend_str(&mut spaced, kw);
        assert(spaced@ =~= seq![' '] + kv[i as int]);
        if begins(t, kw) || crate::text::contains_chars(t, &spaced) {
            n += 1;
        }
        i += 1;
    }
    assert(kv.take(kws.len() as int) =~= kv);
    n
}


// ─── Documentation comments ──────────────────────────────────────────────────

/// The documentation lines found walking up from line `i`, nearest first:
/// `///`, `//!` and `#` lines are collected (prefix and surrounding
/// whitespace removed), blank lines are skipped, anything else stops the walk.
pub open spec fn doc_collect(ls: Seq<Seq<char>>, i: int) -> Seq<Seq<char>>
    decreases i + 1,
{
    if i < 0 || i >= ls.len() {
        seq![]
    } else {
        let t = trim(ls[i]);
        let rest = if i == 0 { seq![] } else { doc_collect(ls, i - 1) };
        if starts_with(t, "///"@) {
            seq![trim(strip_all(t, "///"@))] + rest
        } else if starts_with(t, "//!"@) {
            seq![trim(strip_all(t, "//!"@))] + rest
        } else if starts_with(t, "#"@) {
            seq![trim(strip_all(t, "#"@))] + rest
        } else if starts_with(t, "/**"@) || starts_with(t, "/*"@) {
            seq![]
        } else if t.len() != 0 {
            seq![]
        } else {
            rest
        }
    }
}

/// The documentation comment above line `n`: the collected lines, top to
/// bottom, joined by newlines; `None` when there are none.
pub open spec fn doc_comment(ls: Seq<Seq<char>>, n: int) -> Option<Seq<char>> {
    if n == 0 || n - 1 >= ls.len() {
        None
    } else {
        let c = doc_collect(ls, n - 1);
        if c.len() == 0 {
            None
        } else {
            Some(join(c.reverse(), "\n"@))
        }
    }
}

// ─── Function ends ───────────────────────────────────────────────────────────

/// Scans a line's characters for the closing brace of a function body:
/// whether it was found, and the brace count and "opened" flag otherwise.
pub open spec fn brace_scan(l: Seq<char>, count: int, found: bool) -> (bool, int, bool)
    decreases l.len(),
{
    if l.len() == 0 {
        (false, count, found)
    } else if l[0] == '{' {
        brace_scan(l.drop_first(), count + 1, true)
    } else if l[0] == '}' {
        if found && count - 1 == 0 {
            (true, 0, found)
        } else {
            brace_scan(l.drop_first(), count - 1, found)
        }
    } else {
        brace_scan(l.drop_first(), count, found)
    }
}

/// The line after the one closing the body that opens at or after line `i`,
/// or the number of lines.
pub open spec fn brace_end(ls: Seq<Seq<char>>, i: int, count: int, found: bool) -> int
    decreases ls.len() - i,
{
    if i < 0 || i >= ls.len() {
        ls.len() as int
    } else {
        let r = brace_scan(ls[i], count, found);
        if r.0 {
            i + 1
        } else {
            brace_end(ls, i + 1, r.1, r.2)
        }
    }
}

/// The end found from line `i` is after `i` and at most the number of lines.
pub proof fn lemma_brace_end_bounds(ls: Seq<Seq<char>>, i: int, count: int, found: bool)
    requires
        0 <= i < ls.len(),
    ensures
        i < brace_end(ls, i, count, found) <= ls.len(),
    decreases ls.len() - i,
{
    let r = brace_scan(ls[i], count, found);
    if !r.0 {
        if i + 1 < ls.len() {
            lemma_brace_end_bounds(ls, i + 1, r.1, r.2);
        } else {
            assert(brace_end(ls, i + 1, r.1, r.2) == ls.len());
        }
    }
}

/// Indentation of a line, in UTF-8 bytes.
pub open spec fn indent_of(l: Seq<char>) -> int {
    utf8_len(l) - utf8_len(trim_start(l))
}

/// The first line from `i` on that is not blank and is indented at most `si`,
/// or the number of lines.
pub open spec fn indent_end(ls: Seq<Seq<char>>, i: int, si: int) -> int
    decreases ls.len() - i,
{
    if i < 0 || i >= ls.len() {
        ls.len() as int
    } else if trim(ls[i]).len() > 0 && indent_of(ls[i]) <= si {
        i
    } else {
        indent_end(ls, i + 1, si)
    }
}

/// The end line of the function starting at line `start`: by indentation for
/// Python, by braces otherwise.
pub open spec fn function_end(ls: Seq<Seq<char>>, start: int, lang: Language) -> int {
    match lang {
        Language::Python => {
            let si = if 0 <= start < ls.len() { indent_of(ls[start]) } else { 0 };
            indent_end(ls, start + 1, si)
        },
        _ => brace_end(ls, start, 0, false),
    }
}

// ─── Symbols ─────────────────────────────────────────────────────────────────

/// The function-definition patterns of a language with the visibility they imply.
pub open spec fn function_patterns(lang: Language) -> Seq<(Seq<char>, Visibility)> {
    match lang {
        Language::Rust => seq![
            ("pub\\s+fn\\s+(\\w+)"@, Visibility::Public),
            ("fn\\s+(\\w+)"@, Visibility::Private),
            ("pub\\s+async\\s+fn\\s+(\\w+)"@, Visibility::Public),
            ("async\\s+fn\\s+(\\w+)"@, Visibility::Private),
        ],
        Language::Python => seq![
            ("def\\s+(\\w+)"@, Visibility::Public),
            ("async\\s+def\\s+(\\w+)"@, Visibility::Public),
        ],
        Language::JavaScript | Language::TypeScript => seq![
            ("function\\s+(\\w+)"@, Visibility::Public),
            ("async\\s+function\\s+(\\w+)"@, Visibility::Public),
            ("export\\s+function\\s+(\\w+)"@, Visibility::Public),
            ("const\\s+(\\w+)\\s*=\\s*\\("@, Visibility::Public),
            ("const\\s+(\\w+)\\s*=\\s*async\\s*\\("@, Visibility::Public),
        ],
        Language::Go => seq![
            ("func\\s+(\\w+)"@, Visibility::Unknown),
            ("func\\s+\\(\\w+\\s+\\*?\\w+\\)\\s+(\\w+)"@, Visibility::Unknown),
        ],
        Language::Java => seq![
            ("public\\s+\\w+\\s+(\\w+)\\s*\\("@, Visibility::Public),
            ("private\\s+\\w+\\s+(\\w+)\\s*\\("@, Visibility::Private),
            ("protected\\s+\\w+\\s+(\\w+)\\s*\\("@, Visibility::Protected),
        ],
        Language::Unknown => seq![],
    }
}

/// The model of a code symbol.
pub struct SymbolModel {
    pub name: Seq<char>,
    pub kind: SymbolKind,
    pub qualified_name: Seq<char>,
    pub documentation: Option<Seq<char>>,
    pub start_line: u32,
    pub end_line: u32,
    pub visibility: Visibility,
    pub metrics: Option<ComplexityMetrics>,
    pub child_count: nat,
    pub signature: Option<Seq<char>>,
}

/// The view of an optional string.
pub open spec fn opt_view(o: Option<String>) -> Option<Seq<char>> {
    match o {
        Some(s) => Some(s@),
        None => None,
    }
}

impl CodeSymbol {
    /// The model of this symbol.
    pub open spec fn model(&self) -> SymbolModel {
        SymbolModel {
            name: self.name@,
            kind: self.kind,
            qualified_name: self.qualified_name@,
            documentation: opt_view(self.documentation),
            start_line: self.start_line,
            end_line: self.end_line,
            visibility: self.visibility,
            metrics: self.metrics,
            child_count: self.children@.len(),
            signature: opt_view(self.signature),
        }
    }
}

/// Models of a sequence of symbols.
pub open spec fn symbol_models(v: Seq<CodeSymbol>) -> Seq<SymbolModel> {
    v.map_values(|s: CodeSymbol| s.model())
}

/// The function symbol found on line `li` by pattern `k`, if any.
pub open spec fn pattern_symbol(ls: Seq<Seq<char>>, lang: Language, li: int, k: int) -> Seq<SymbolModel> {
    let (p, vis) = function_patterns(lang)[k];
    if regex_compiles(p) && group_text(p, ls[li], 1) is Some {
        let name = group_text(p, ls[li], 1).unwrap();
        seq![SymbolModel {
            name: name,
            kind: SymbolKind::Function,
            qualified_name: name,
            documentation: doc_comment(ls, li),
            start_line: (li + 1) as u32,
            end_line: function_end(ls, li, lang) as u32,
            visibility: vis,
            metrics: None,
            child_count: 0,
            signature: Some(trim(ls[li])),
        }]
    } else {
        seq![]
    }
}

/// The symbols found on line `li` by the first `k` patterns.
pub open spec fn line_symbols(ls: Seq<Seq<char>>, lang: Language, li: int, k: int) -> Seq<SymbolModel>
    decreases k,
{
    if k <= 0 {
        seq![]
    } else {
        line_symbols(ls, lang, li, k - 1) + pattern_symbol(ls, lang, li, k - 1)
    }
}

/// The symbols found on the first `n` lines, line by line, pattern by pattern.
pub open spec fn symbols_upto(ls: Seq<Seq<char>>, lang: Language, n: int) -> Seq<SymbolModel>
    decreases n,
{
    if n <= 0 {
        seq![]
    } else {
        symbols_upto(ls, lang, n - 1) + line_symbols(ls, lang, n - 1, function_patterns(lang).len() as int)
    }
}

/// The function symbols of the content.
pub open spec fn symbols_of(content: Seq<char>, lang: Language) -> Seq<SymbolModel> {
    symbols_upto(lines(content), lang, lines(content).len() as int)
}

/// The pattern literals and visibilities of a language.
fn function_pattern_list(lang: Language) -> (r: Vec<(&'static str, Visibility)>)
    ensures
        r@.map_values(|e: (&str, Visibility)| (e.0@, e.1)) == function_patterns(lang),
{
    let r = match lang {
        Language::Rust => vec![
            ("pub\\s+fn\\s+(\\w+)", Visibility::Public),
            ("fn\\s+(\\w+)", Visibility::Private),
            ("pub\\s+async\\s+fn\\s+(\\w+)", Visibility::Public),
            ("async\\s+fn\\s+(\\w+)", Visibility::Private),
        ],
        Language::Python => vec![
            ("def\\s+(\\w+)", Visibility::Public),
            ("async\\s+def\\s+(\\w+)", Visibility::Public),
        ],
        Language::JavaScript | Language::TypeScript => vec![
            ("function\\s+(\\w+)", Visibility::Public),
            ("async\\s+function\\s+(\\w+)", Visibility::Public),
            ("export\\s+function\\s+(\\w+)", Visibility::Public),
            ("const\\s+(\\w+)\\s*=\\s*\\(", Visibility::Public),
            ("const\\s+(\\w+)\\s*=\\s*async\\s*\\(", Visibility::Public),
        ],
        Language::Go => vec![
            ("func\\s+(\\w+)", Visibility::Unknown),
            ("func\\s+\\(\\w+\\s+\\*?\\w+\\)\\s+(\\w+)", Visibility::Unknown),
        ],
        Language::Java => vec![
            ("public\\s+\\w+\\s+(\\w+)\\s*\\(", Visibility::Public),
            ("private\\s+\\w+\\s+(\\w+)\\s*\\(", Visibility::Private),
            ("protected\\s+\\w+\\s+(\\w+)\\s*\\(", Visibility::Protected),
        ],
        Language::Unknown => vec![],
    };
    assert(r@.map_values(|e: (&str, Visibility)| (e.0@, e.1)) =~= function_patterns(lang));
    r
}

impl CodeAnalyzer {
    /// The documentation comment directly above line `line_num` (0-based).
    pub fn extract_doc_comment(&self, ls: &[Vec<char>], line_num: usize) -> (r: Option<String>)
        ensures
            opt_view(r) == doc_comment(views(ls@), line_num as int),
    {
        let ghost lv = views(ls@);
        if line_num == 0 || line_num - 1 >= ls.len() {
            return None;
        }
        let mut collected: Vec<Vec<char>> = Vec::new();
        let mut i: usize = line_num - 1;
        loop
            invariant_except_break
                views(collected@) + doc_collect(lv, i as int) == doc_collect(lv, line_num - 1),
            invariant
                lv == views(ls@),
                i < ls.len(),
            ensures
                views(collected@) == doc_collect(lv, line_num - 1),
            decreases i,
        {
            let t = trim_chars(&ls[i]);
            assert(t@ == trim(lv[i as int]));
            let ghost rest = if i == 0 { Seq::<Seq<char>>::empty() } else { doc_collect(lv, i - 1) };
            let prefix: Option<&str> = if begins(&t, "///") {
                Some("///")
            } else if begins(&t, "//!") {
                Some("//!")
            } else if begins(&t, "#") {
                Some("#")
            } else {
                None
            };
            match prefix {
                Some(p) => {
                    let stripped = strip_all_lit(&t, p);
                    let item = trim_chars(&stripped);
                    let ghost o = collected@;
                    collected.push(item);
                    assert(views(collected@) =~= views(o).push(item@));
                    assert(doc_collect(lv, i as int) == seq![item@] + rest);
                    assert(views(collected@) + rest =~= views(o) + (seq![item@] + rest));
                },
                None => {
                    if begins(&t, "/**") || begins(&t, "/*") || t.len() != 0 {
                        assert(doc_collect(lv, i as int) =~= Seq::<Seq<char>>::empty());
                        assert(views(collected@) =~= views(collected@) + doc_collect(lv, i as int));
                        break;
                    }
                },
            }
            if i == 0 {
                assert(rest =~= Seq::<Seq<char>>::empty());
                assert(views(collected@) =~= views(collected@) + rest);
                break;
            }
            i -= 1;
        }
        if collected.len() == 0 {
            return None;
        }
        let mut rev: Vec<Vec<char>> = Vec::new();
        let mut j: usize = collected.len();
        while j > 0
            invariant
                j <= collected.len(),
                views(rev@) == views(collected@).subrange(j as int, collected@.len() as int).reverse(),
            decreases j,
        {
            j -= 1;
            let ghost o = rev@;
            rev.push(collected[j].clone());
            assert(views(rev@) =~= views(o).push(collected@[j as int]@));
            assert(views(collected@).subrange(j as int, collected@.len() as int).reverse() =~= views(
                collected@,
            ).subrange(j + 1, collected@.len() as int).reverse().push(collected@[j as int]@));
        }
        assert(views(collected@).subrange(0, collected@.len() as int) =~= views(collected@));
        let nl = buf("\n");
        let joined = join_chars(&rev, &nl);
        Some(string_from_chars(&joined))
    }

    /// The end line of the function starting at line `start`.
    pub fn find_function_end(&self, ls: &[Vec<char>], start: usize, language: Language) -> (r: usize)
        requires
            total_len(views(ls@)) <= i32::MAX,
        ensures
            r == function_end(views(ls@), start as int, language),
    {
        let ghost lv = views(ls@);
        match language {
            Language::Python => {
                let si: u64 = if start < ls.len() {
                    proof {
                        crate::text::lemma_total_len_each(lv, start as int);
                    }
                    indent_bytes(&ls[start])
                } else {
                    0
                };
                if start >= ls.len() {
                    return ls.len();
                }
                assert(start + 1 <= ls.len());
                let mut i: usize = start + 1;
                assert(function_end(lv, start as int, language) == indent_end(lv, start + 1, si as int));
                while i < ls.len()
                    invariant
                        lv == views(ls@),
                        total_len(lv) <= i32::MAX,
                        start < i <= ls.len(),
                        si == indent_of(lv[start as int]),
                        function_end(lv, start as int, language) == indent_end(lv, start + 1, si as int),
                        indent_end(lv, i as int, si as int) == indent_end(lv, start + 1, si as int),
                    decreases ls.len() - i,
                {
                    proof {
                        crate::text::lemma_total_len_each(lv, i as int);
                    }
                    let t = trim_chars(&ls[i]);
                    assert(t@ == trim(lv[i as int]));
                    let ind = indent_bytes(&ls[i]);
                    if t.len() != 0 && ind <= si {
                        assert(indent_end(lv, i as int, si as int) == i);
                        return i;
                    }
                    i += 1;
                }
                i
            },
            _ => brace_block_end(ls, start),
        }
    }
}

/// The line after the one that closes the brace block opening at or after
/// line `start`, or the number of lines.
pub fn brace_block_end(ls: &[Vec<char>], start: usize) -> (r: usize)
    requires
        total_len(views(ls@)) <= i32::MAX,
    ensures
        r == brace_end(views(ls@), start as int, 0, false),
{
    let ghost lv = views(ls@);
    if start >= ls.len() {
        return ls.len();
    }
    let mut count: i64 = 0;
    let mut found = false;
    let mut i: usize = start;
    proof {
        crate::text::lemma_total_len_mono(lv, start as int);
    }
    while i < ls.len()
        invariant
            lv == views(ls@),
            total_len(lv) <= i32::MAX,
            start <= i <= ls.len(),
            -total_len(lv.take(i as int)) <= count <= total_len(lv.take(i as int)),
            brace_end(lv, i as int, count as int, found) == brace_end(
                lv,
                start as int,
                0,
                false,
            ),
        decreases ls.len() - i,
    {
        proof {
            assert(lv.take(i + 1).drop_last() =~= lv.take(i as int));
            assert(lv.take(i + 1).last() == ls@[i as int]@);
            crate::text::lemma_total_len_mono(lv, i + 1);
        }
        let (done, c2, f2) = scan_line(&ls[i], count, found, Ghost(total_len(lv.take(i as int))));
        if done {
            assert(brace_end(lv, i as int, count as int, found) == i + 1);
            return i + 1;
        }
        count = c2;
        found = f2;
        i += 1;
    }
    i
}

/// Scans one line for the closing brace; see `brace_scan`.
fn scan_line(line: &[char], count: i64, found: bool, Ghost(bound): Ghost<nat>) -> (r: (bool, i64, bool))
    requires
        -bound <= count <= bound,
        bound + line@.len() <= i32::MAX,
    ensures
        (r.0, r.1 as int, r.2) == brace_scan(line@, count as int, found),
        -(bound + line@.len()) <= r.1 <= bound + line@.len(),
{
    let mut c = count;
    let mut f = found;
    let mut j: usize = 0;
    assert(line@.skip(0) == line@);
    while j < line.len()
        invariant
            j <= line.len(),
            bound + line@.len() <= i32::MAX,
            -(bound + j) <= c <= bound + j,
            brace_scan(line@.skip(j as int), c as int, f) == brace_scan(line@, count as int, found),
        decreases line.len() - j,
    {
        let ch = line[j];
        assert(line@.skip(j as int).drop_first() == line@.skip(j + 1));
        assert(line@.skip(j as int)[0] == ch);
        if ch == '{' {
            c = c + 1;
            f = true;
        } else if ch == '}' {
            c = c - 1;
            if f && c == 0 {
                return (true, 0, f);
            }
        }
        j += 1;
    }
    (false, c, f)
}

/// Indentation of a line in UTF-8 bytes.
fn indent_bytes(l: &[char]) -> (r: u64)
    requires
        l@.len() <= i32::MAX,
    ensures
        r == indent_of(l@),
{
    let t = trim_start_chars(l);
    proof {
        crate::text::lemma_trim_start_suffix(l@);
        crate::text::lemma_utf8_len_suffix(l@, l@.len() - t@.len());
    }
    let a = utf8_length(l);
    let b = utf8_length(&t);
    a - b
}


// ─── Symbol extraction ───────────────────────────────────────────────────────

impl CodeAnalyzer {
    /// Extracts the function symbols of the content, line by line and, within
    /// a line, pattern by pattern; a line matched by two patterns yields two symbols.
    pub fn extract_symbols(&self, content: &str, language: Language) -> (r: Result<
        Vec<CodeSymbol>,
        AnalyzerError,
    >)
        requires
            content@.len() <= i32::MAX,
        ensures
            r matches Ok(v) && symbol_models(v@) == symbols_of(content@, language),
    {
        let cs = chars_of(content);
        let ls = lines_of(&cs);
        proof {
            crate::text::lemma_lines_bound(content@);
        }
        Ok(self.symbols_in_lines(&ls, language))
    }

    /// The function symbols of the given lines.
    pub fn symbols_in_lines(&self, ls: &[Vec<char>], language: Language) -> (r: Vec<CodeSymbol>)
        requires
            total_len(views(ls@)) <= i32::MAX,
            ls@.len() <= i32::MAX,
        ensures
            symbol_models(r@) == symbols_upto(views(ls@), language, ls@.len() as int),
    {
        let ghost lv = views(ls@);
        let pats = function_pattern_list(language);
        let ghost pv = function_patterns(language);
        let mut compiled: Vec<Option<crate::pattern::Pattern>> = Vec::new();
        let mut k: usize = 0;
        while k < pats.len()
            invariant
                k <= pats.len(),
                pats@.map_values(|e: (&str, Visibility)| (e.0@, e.1)) == pv,
                compiled@.len() == k,
                forall|m: int| 0 <= m < k ==> (#[trigger] compiled@[m] is Some <==> regex_compiles(
                    pv[m].0,
                )) && (compiled@[m] matches Some(x) ==> x.source() == pv[m].0),
            decreases pats.len() - k,
        {
            assert(pats@[k as int].0@ == pv[k as int].0);
            compiled.push(compile(pats[k].0));
            k += 1;
        }
        let mut out: Vec<CodeSymbol> = Vec::new();
        let mut li: usize = 0;
        while li < ls.len()
            invariant
                li <= ls.len(),
                lv == views(ls@),
                total_len(lv) <= i32::MAX,
                ls@.len() <= i32::MAX,
                pats@.map_values(|e: (&str, Visibility)| (e.0@, e.1)) == pv,
                pv == function_patterns(language),
                compiled@.len() == pv.len(),
                forall|m: int| 0 <= m < pv.len() ==> (#[trigger] compiled@[m] is Some <==> regex_compiles(
                    pv[m].0,
                )) && (compiled@[m] matches Some(x) ==> x.source() == pv[m].0),
                symbol_models(out@) == symbols_upto(lv, language, li as int),
            decreases ls.len() - li,
        {
            let line_str = string_from_chars(&ls[li]);
            let mut k: usize = 0;
            let ghost base = symbol_models(out@);
            while k < pats.len()
                invariant
                    k <= pats.len(),
                    li < ls.len(),
                    lv == views(ls@),
                    total_len(lv) <= i32::MAX,
                    ls@.len() <= i32::MAX,
                    line_str@ == lv[li as int],
                    pats@.map_values(|e: (&str, Visibility)| (e.0@, e.1)) == pv,
                    pv == function_patterns(language),
                    compiled@.len() == pv.len(),
                    forall|m: int| 0 <= m < pv.len() ==> (#[trigger] compiled@[m] is Some
                        <==> regex_compiles(pv[m].0)) && (compiled@[m] matches Some(x) ==> x.source()
                        == pv[m].0),
                    symbol_models(out@) == base + line_symbols(lv, language, li as int, k as int),
                decreases pats.len() - k,
            {
                assert(pats@[k as int].1 == pv[k as int].1);
                let ghost o = out@;
                match &compiled[k] {
                    Some(re) => {
                        match capture_group(re, line_str.as_str(), 1) {
                            Some(name) => {
                                let doc = self.extract_doc_comment(ls, li);
                                let end = self.find_function_end(ls, li, language);
                                let sig_chars = trim_chars(&ls[li]);
                                let sym = CodeSymbol {
                                    name: name.clone(),
                                    kind: SymbolKind::Function,
                                    qualified_name: name,
                                    documentation: doc,
                                    start_line: (li + 1) as u32,
                                    end_line: #[verifier::truncate] (end as u32),
                                    visibility: pats[k].1,
                                    metrics: None,
                                    children: Vec::new(),
                                    signature: Some(string_from_chars(&sig_chars)),
                                };
                                out.push(sym);
                                assert(symbol_models(out@) =~= symbol_models(o).push(sym.model()));
                                assert(pattern_symbol(lv, language, li as int, k as int) =~= seq![
                                    sym.model(),
                                ]);
                            },
                            None => {
                                assert(pattern_symbol(lv, language, li as int, k as int) =~= seq![]);
                            },
                        }
                    },
                    None => {
                        assert(pattern_symbol(lv, language, li as int, k as int) =~= seq![]);
                    },
                }
                assert(line_symbols(lv, language, li as int, k + 1) == line_symbols(
                    lv,
                    language,
                    li as int,
                    k as int,
                ) + pattern_symbol(lv, language, li as int, k as int));
                assert(symbol_models(out@) =~= base + line_symbols(lv, language, li as int, k + 1));
                k += 1;
            }
            assert(symbols_upto(lv, language, li + 1) == symbols_upto(lv, language, li as int)
                + line_symbols(lv, language, li as int, pv.len() as int));
            li += 1;
        }
        out
    }
}


// ─── Code smells ─────────────────────────────────────────────────────────────

/// The model of a code smell.
pub struct SmellModel {
    pub smell_type: CodeSmellType,
    pub severity: Severity,
    pub message: Seq<char>,
    pub file: Seq<char>,
    pub line: u32,
    pub column: u32,
    pub end_line: u32,
    pub end_column: u32,
    pub suggestion: Option<Seq<char>>,
    pub snippet: Option<Seq<char>>,
}

impl CodeSmell {
    /// The model of this smell.
    pub open spec fn model(&self) -> SmellModel {
        SmellModel {
            smell_type: self.smell_type,
            severity: self.severity,
            message: self.message@,
            file: self.file@,
            line: self.line,
            column: self.column,
            end_line: self.end_line,
            end_column: self.end_column,
            suggestion: opt_view(self.suggestion),
            snippet: opt_view(self.snippet),
        }
    }
}

/// Models of a sequence of smells.
pub open spec fn smell_models(v: Seq<CodeSmell>) -> Seq<SmellModel> {
    v.map_values(|s: CodeSmell| s.model())
}

/// The file-length smell.
pub open spec fn size_smells(cfg: AnalyzerConfig, path: Seq<char>, m: ComplexityMetrics) -> Seq<SmellModel> {
    if m.sloc > cfg.max_file_length {
        seq![SmellModel {
            smell_type: CodeSmellType::LargeClass,
            severity: Severity::Warning,
            message: "File has "@ + dec(m.sloc as nat) + " lines of code (max: "@ + dec(cfg.max_file_length as nat) + ")"@,
            file: path,
            line: 1,
            column: 1,
            end_line: m.loc,
            end_column: 1,
            suggestion: Some("Consider splitting into smaller modules"@),
            snippet: None,
        }]
    } else {
        seq![]
    }
}

/// The number of lines a symbol spans (`end - start`, at least zero).
pub open spec fn span_of(s: SymbolModel) -> u32 {
    if s.end_line >= s.start_line { (s.end_line - s.start_line) as u32 } else { 0 }
}

/// The smells of one symbol: too long, and public without documentation.
pub open spec fn symbol_smell(cfg: AnalyzerConfig, path: Seq<char>, ls: Seq<Seq<char>>, s: SymbolModel) -> Seq<SmellModel> {
    if s.kind == SymbolKind::Function || s.kind == SymbolKind::Method {
        let long = if span_of(s) > cfg.max_function_length {
            seq![SmellModel {
                smell_type: CodeSmellType::LongFunction,
                severity: Severity::Warning,
                message: "Function '"@ + s.name + "' has "@ + dec(span_of(s) as nat) + " lines (max: "@ + dec(cfg.max_function_length as nat) + ")"@,
                file: path,
                line: s.start_line,
                column: 1,
                end_line: s.end_line,
                end_column: 1,
                suggestion: Some("Consider extracting smaller functions"@),
                snippet: if s.start_line - 1 < ls.len() { Some(ls[s.start_line - 1]) } else { None },
            }]
        } else {
            seq![]
        };
        let undocumented = if s.documentation is None && s.visibility == Visibility::Public {
            seq![SmellModel {
                smell_type: CodeSmellType::MissingDocumentation,
                severity: Severity::Info,
                message: "Public function '"@ + s.name + "' lacks documentation"@,
                file: path,
                line: s.start_line,
                column: 1,
                end_line: s.start_line,
                end_column: 1,
                suggestion: Some("Add documentation comment"@),
                snippet: None,
            }]
        } else {
            seq![]
        };
        long + undocumented
    } else {
        seq![]
    }
}

/// The smells of the given symbols, in order.
pub open spec fn symbol_smells(cfg: AnalyzerConfig, path: Seq<char>, ls: Seq<Seq<char>>, syms: Seq<SymbolModel>) -> Seq<SmellModel>
    decreases syms.len(),
{
    if syms.len() == 0 {
        seq![]
    } else {
        symbol_smells(cfg, path, ls, syms.drop_last()) + symbol_smell(cfg, path, ls, syms.last())
    }
}

/// The nesting-depth smell.
pub open spec fn nesting_smells(cfg: AnalyzerConfig, path: Seq<char>, m: ComplexityMetrics) -> Seq<SmellModel> {
    if m.max_nesting > cfg.max_nesting {
        seq![SmellModel {
            smell_type: CodeSmellType::DeepNesting,
            severity: Severity::Warning,
            message: "Maximum nesting depth is "@ + dec(m.max_nesting as nat) + " (max: "@ + dec(cfg.max_nesting as nat) + ")"@,
            file: path,
            line: 1,
            column: 1,
            end_line: m.loc,
            end_column: 1,
            suggestion: Some("Consider early returns or extracting nested logic"@),
            snippet: None,
        }]
    } else {
        seq![]
    }
}

/// The pattern of numbers with two or more digits.
pub open spec fn magic_pattern() -> Seq<char> {
    "\\b\\d{2,}\\b"@
}

/// A line that is skipped by the magic number check: a comment, or a
/// definition or assignment.
pub open spec fn magic_exempt(t: Seq<char>) -> bool {
    starts_with(t, "//"@) || starts_with(t, "#"@) || starts_with(t, "/*"@) || contains(t, "const "@)
        || contains(t, "static "@) || contains(t, " = "@)
}

/// The value of a matched number, zero when it does not parse as `i64`.
pub open spec fn magic_value(text: Seq<char>) -> i64 {
    match parse_i64_spec(text) {
        Some(v) => v,
        None => 0,
    }
}

/// Whether a number counts as magic.
pub open spec fn is_magic(n: i64) -> bool {
    n > 1 && n != 10 && n != 100 && n != 1000
}

/// The magic-number smells of the first `k` matches on line `i`.
pub open spec fn magic_in_line(path: Seq<char>, line: Seq<char>, i: int, ms: Seq<(nat, nat, Seq<char>)>, k: int) -> Seq<SmellModel>
    decreases k,
{
    if k <= 0 {
        seq![]
    } else {
        let prev = magic_in_line(path, line, i, ms, k - 1);
        let m = ms[k - 1];
        let n = magic_value(m.2);
        if is_magic(n) {
            prev.push(SmellModel {
                smell_type: CodeSmellType::MagicNumbers,
                severity: Severity::Info,
                message: "Magic number "@ + dec_int(n as int) + " found"@,
                file: path,
                line: (i + 1) as u32,
                column: (m.0 + 1) as u32,
                end_line: (i + 1) as u32,
                end_column: (m.1 + 1) as u32,
                suggestion: Some("Consider using a named constant"@),
                snippet: Some(line),
            })
        } else {
            prev
        }
    }
}

/// The magic-number smells of the first `n` lines.
pub open spec fn magic_smells(path: Seq<char>, ls: Seq<Seq<char>>, n: int) -> Seq<SmellModel>
    decreases n,
{
    if n <= 0 {
        seq![]
    } else {
        let prev = magic_smells(path, ls, n - 1);
        let line = ls[n - 1];
        if magic_exempt(trim(line)) {
            prev
        } else {
            let ms = regex_find_all(magic_pattern(), line);
            prev + magic_in_line(path, line, n - 1, ms, ms.len() as int)
        }
    }
}

/// The TODO/FIXME/HACK smells of the first `n` lines.
pub open spec fn todo_smells(path: Seq<char>, ls: Seq<Seq<char>>, n: int) -> Seq<SmellModel>
    decreases n,
{
    if n <= 0 {
        seq![]
    } else {
        let prev = todo_smells(path, ls, n - 1);
        let line = ls[n - 1];
        if contains(line, "TODO"@) || contains(line, "FIXME"@) || contains(line, "HACK"@) {
            prev.push(SmellModel {
                smell_type: CodeSmellType::CommentedCode,
                severity: Severity::Info,
                message: "TODO/FIXME comment found"@,
                file: path,
                line: n as u32,
                column: 1,
                end_line: n as u32,
                end_column: utf8_len(line) as u32,
                suggestion: Some("Address the TODO or create an issue"@),
                snippet: Some(trim(line)),
            })
        } else {
            prev
        }
    }
}

/// All smells: file length, per symbol, nesting, magic numbers (when the
/// number pattern compiles), and TODO comments, in that order.
pub open spec fn smells_of(cfg: AnalyzerConfig, path: Seq<char>, content: Seq<char>, m: ComplexityMetrics, syms: Seq<SymbolModel>) -> Seq<SmellModel> {
    let ls = lines(content);
    size_smells(cfg, path, m) + symbol_smells(cfg, path, ls, syms) + nesting_smells(cfg, path, m)
        + (if regex_compiles(magic_pattern()) { magic_smells(path, ls, ls.len() as int) } else { seq![] })
        + todo_smells(path, ls, ls.len() as int)
}

/// Symbols whose long-function report needs a line before them start at line one or later.
pub open spec fn long_symbols_start_at_one(cfg: AnalyzerConfig, syms: Seq<SymbolModel>) -> bool {
    forall|i: int| 0 <= i < syms.len() && (syms[i].kind == SymbolKind::Function || syms[i].kind
        == SymbolKind::Method) && span_of(#[trigger] syms[i]) > cfg.max_function_length
        ==> syms[i].start_line >= 1
}

fn some_owned(s: &str) -> (r: Option<String>)
    ensures
        opt_view(r) == Some(s@),
{
    Some(crate::text::owned(s))
}

impl CodeAnalyzer {
    /// The smells of one symbol.
    fn smells_for_symbol(&self, path: &str, ls: &[Vec<char>], sym: &CodeSymbol) -> (r: Vec<CodeSmell>)
        requires
            (sym.kind == SymbolKind::Function || sym.kind == SymbolKind::Method) && span_of(sym.model())
                > self.spec_config().max_function_length ==> sym.start_line >= 1,
        ensures
            smell_models(r@) == symbol_smell(self.spec_config(), path@, views(ls@), sym.model()),
    {
        let mut out: Vec<CodeSmell> = Vec::new();
        if sym.kind == SymbolKind::Function || sym.kind == SymbolKind::Method {
            let span = sym.end_line.saturating_sub(sym.start_line);
            assert(span == span_of(sym.model()));
            if span > self.config.max_function_length {
                let mut msg = buf("Function '");
                extend_str(&mut msg, sym.name.as_str());
                extend_str(&mut msg, "' has ");
                push_dec(&mut msg, span as u64);
                extend_str(&mut msg, " lines (max: ");
                push_dec(&mut msg, self.config.max_function_length as u64);
                extend_str(&mut msg, ")");
                let idx = (sym.start_line - 1) as usize;
                let snippet = if idx < ls.len() {
                    Some(string_from_chars(&ls[idx]))
                } else {
                    None
                };
                let smell = CodeSmell {
                    smell_type: CodeSmellType::LongFunction,
                    severity: Severity::Warning,
                    message: string_from_chars(&msg),
                    file: crate::text::owned(path),
                    line: sym.start_line,
                    column: 1,
                    end_line: sym.end_line,
                    end_column: 1,
                    suggestion: some_owned("Consider extracting smaller functions"),
                    snippet: snippet,
                };
                out.push(smell);
            }
            let ghost o = out@;
            if sym.documentation.is_none() && sym.visibility == Visibility::Public {
                let mut msg = buf("Public function '");
                extend_str(&mut msg, sym.name.as_str());
                extend_str(&mut msg, "' lacks documentation");
                let smell = CodeSmell {
                    smell_type: CodeSmellType::MissingDocumentation,
                    severity: Severity::Info,
                    message: string_from_chars(&msg),
                    file: crate::text::owned(path),
                    line: sym.start_line,
                    column: 1,
                    end_line: sym.start_line,
                    end_column: 1,
                    suggestion: some_owned("Add documentation comment"),
                    snippet: None,
                };
                out.push(smell);
            }
            assert(smell_models(out@) =~= symbol_smell(self.config, path@, views(ls@), sym.model()));
        } else {
            assert(smell_models(out@) =~= symbol_smell(self.config, path@, views(ls@), sym.model()));
        }
        out
    }

    /// The magic-number smells of one line.
    fn magic_for_line(&self, path: &str, re: &crate::pattern::Pattern, line: &[char], i: usize) -> (r: Vec<CodeSmell>)
        requires
            re.source() == magic_pattern(),
        ensures
            smell_models(r@) == (if magic_exempt(trim(line@)) { seq![] } else {
                magic_in_line(path@, line@, i as int, regex_find_all(magic_pattern(), line@), regex_find_all(magic_pattern(), line@).len() as int)
            }),
    {
        let mut out: Vec<CodeSmell> = Vec::new();
        let t = trim_chars(line);
        if begins(&t, "//") || begins(&t, "#") || begins(&t, "/*") || has_lit(&t, "const ")
            || has_lit(&t, "static ") || has_lit(&t, " = ") {
            return out;
        }
        let line_str = string_from_chars(line);
        let ms = find_all(re, line_str.as_str());
        let ghost mv = crate::pattern::match_views(ms@);
        let mut k: usize = 0;
        while k < ms.len()
            invariant
                k <= ms.len(),
                line_str@ == line@,
                mv == crate::pattern::match_views(ms@),
                mv == regex_find_all(magic_pattern(), line@),
                smell_models(out@) == magic_in_line(path@, line@, i as int, mv, k as int),
            decreases ms.len() - k,
        {
            let (start, end, text) = (ms[k].0, ms[k].1, &ms[k].2);
            assert(mv[k as int] == (start as nat, end as nat, text@));
            let tc = chars_of(text.as_str());
            let n = match parse_i64(&tc) {
                Some(v) => v,
                None => 0,
            };
            if n > 1 && n != 10 && n != 100 && n != 1000 {
                let mut msg = buf("Magic number ");
                push_dec_i64(&mut msg, n);
                extend_str(&mut msg, " found");
                let ln: u32 = #[verifier::truncate] ((i as u128 + 1) as u32);
                let col: u32 = #[verifier::truncate] ((start as u128 + 1) as u32);
                let endc: u32 = #[verifier::truncate] ((end as u128 + 1) as u32);
                let smell = CodeSmell {
                    smell_type: CodeSmellType::MagicNumbers,
                    severity: Severity::Info,
                    message: string_from_chars(&msg),
                    file: crate::text::owned(path),
                    line: ln,
                    column: col,
                    end_line: ln,
                    end_column: endc,
                    suggestion: some_owned("Consider using a named constant"),
                    snippet: Some(string_from_chars(line)),
                };
                let ghost o = out@;
                out.push(smell);
                assert(smell_models(out@) =~= smell_models(o).push(smell.model()));
            }
            k += 1;
        }
        out
    }

    /// Detects code smells: an over-long file, over-long or undocumented
    /// public functions, deep nesting, magic numbers and TODO comments.
    pub fn detect_smells(
        &self,
        path: &str,
        content: &str,
        _language: Language,
        metrics: &ComplexityMetrics,
        symbols: &[CodeSymbol],
    ) -> (r: Vec<CodeSmell>)
        requires
            content@.len() <= i32::MAX,
            long_symbols_start_at_one(self.spec_config(), symbol_models(symbols@)),
        ensures
            smell_models(r@) == smells_of(self.spec_config(), path@, content@, *metrics, symbol_models(symbols@)),
    {
        let cs = chars_of(content);
        let ls = lines_of(&cs);
        let ghost lv = views(ls@);
        let ghost sv = symbol_models(symbols@);
        proof {
            crate::text::lemma_lines_bound(content@);
        }
        let mut out: Vec<CodeSmell> = Vec::new();
        // File length.
        if metrics.sloc > self.config.max_file_length {
            let mut msg = buf("File has ");
            push_dec(&mut msg, metrics.sloc as u64);
            extend_str(&mut msg, " lines of code (max: ");
            push_dec(&mut msg, self.config.max_file_length as u64);
            extend_str(&mut msg, ")");
            out.push(CodeSmell {
                smell_type: CodeSmellType::LargeClass,
                severity: Severity::Warning,
                message: string_from_chars(&msg),
                file: crate::text::owned(path),
                line: 1,
                column: 1,
                end_line: metrics.loc,
                end_column: 1,
                suggestion: some_owned("Consider splitting into smaller modules"),
                snippet: None,
            });
        }
        assert(smell_models(out@) =~= size_smells(self.config, path@, *metrics));
        // Symbols.
        let ghost base = smell_models(out@);
        let mut i: usize = 0;
        while i < symbols.len()
            invariant
                i <= symbols.len(),
                sv == symbol_models(symbols@),
                lv == views(ls@),
                long_symbols_start_at_one(self.config, sv),
                smell_models(out@) == base + symbol_smells(self.config, path@, lv, sv.take(i as int)),
            decreases symbols.len() - i,
        {
            assert(sv[i as int] == symbols@[i as int].model());
            let part = self.smells_for_symbol(path, &ls, &symbols[i]);
            let ghost o = out@;
            let mut part = part;
            out.append(&mut part);
            assert(sv.take(i + 1).drop_last() =~= sv.take(i as int));
            assert(smell_models(out@) =~= smell_models(o) + symbol_smell(self.config, path@, lv, sv[i as int]));
            i += 1;
        }
        assert(sv.take(symbols.len() as int) =~= sv);
        // Nesting.
        let ghost before = smell_models(out@);
        if metrics.max_nesting > self.config.max_nesting {
            let mut msg = buf("Maximum nesting depth is ");
            push_dec(&mut msg, metrics.max_nesting as u64);
            extend_str(&mut msg, " (max: ");
            push_dec(&mut msg, self.config.max_nesting as u64);
            extend_str(&mut msg, ")");
            out.push(CodeSmell {
                smell_type: CodeSmellType::DeepNesting,
                severity: Severity::Warning,
                message: string_from_chars(&msg),
                file: crate::text::owned(path),
                line: 1,
                column: 1,
                end_line: metrics.loc,
                end_column: 1,
                suggestion: some_owned("Consider early returns or extracting nested logic"),
                snippet: None,
            });
        }
        assert(smell_models(out@) =~= before + nesting_smells(self.config, path@, *metrics));
        // Magic numbers.
        let ghost before = smell_models(out@);
        match compile("\\b\\d{2,}\\b") {
            Some(re) => {
                let mut li: usize = 0;
                while li < ls.len()
                    invariant
                        li <= ls.len(),
                        lv == views(ls@),
                        re.source() == magic_pattern(),
                        smell_models(out@) == before + magic_smells(path@, lv, li as int),
                    decreases ls.len() - li,
                {
                    let part = self.magic_for_line(path, &re, &ls[li], li);
                    let ghost o = out@;
                    let ghost pv = smell_models(part@);
                    let mut part = part;
                    out.append(&mut part);
                    assert(smell_models(out@) =~= smell_models(o) + pv);
                    li += 1;
                }
            },
            None => {
                assert(smell_models(out@) =~= before + seq![]);
            },
        }
        // TODO comments.
        let ghost before = smell_models(out@);
        let mut li: usize = 0;
        while li < ls.len()
            invariant
                li <= ls.len(),
                lv == views(ls@),
                total_len(lv) <= i32::MAX,
                lv.len() <= i32::MAX,
                smell_models(out@) == before + todo_smells(path@, lv, li as int),
            decreases ls.len() - li,
        {
            let line = &ls[li];
            if has_lit(line, "TODO") || has_lit(line, "FIXME") || has_lit(line, "HACK") {
                proof {
                    crate::text::lemma_total_len_each(lv, li as int);
                }
                let bytes = utf8_length(line);
                let t = trim_chars(line);
                let smell = CodeSmell {
                    smell_type: CodeSmellType::CommentedCode,
                    severity: Severity::Info,
                    message: crate::text::owned("TODO/FIXME comment found"),
                    file: crate::text::owned(path),
                    line: (li + 1) as u32,
                    column: 1,
                    end_line: (li + 1) as u32,
                    end_column: #[verifier::truncate] (bytes as u32),
                    suggestion: some_owned("Address the TODO or create an issue"),
                    snippet: Some(string_from_chars(&t)),
                };
                let ghost o = out@;
                out.push(smell);
                assert(smell_models(out@) =~= smell_models(o).push(smell.model()));
            }
            li += 1;
        }
        out
    }
}


// ─── Imports ─────────────────────────────────────────────────────────────────

/// The import patterns of a language, with whether they denote a wildcard import.
pub open spec fn import_patterns(lang: Language) -> Seq<(Seq<char>, bool)> {
    match lang {
        Language::Rust => seq![
            ("use\\s+([\\w:]+)(?:::\\{([^}]+)\\})?"@, false),
            ("use\\s+([\\w:]+)::\\*"@, true),
        ],
        Language::Python => seq![
            ("import\\s+([\\w.]+)"@, false),
            ("from\\s+([\\w.]+)\\s+import\\s+(.+)"@, false),
            ("from\\s+([\\w.]+)\\s+import\\s+\\*"@, true),
        ],
        Language::JavaScript | Language::TypeScript => seq![
            ("import\\s+.*\\s+from\\s+['\"]([^'\"]+)['\"]"@, false),
            ("import\\s+['\"]([^'\"]+)['\"]"@, false),
            ("require\\s*\\(\\s*['\"]([^'\"]+)['\"]\\s*\\)"@, false),
        ],
        Language::Go => seq![
            ("import\\s+[\"']([^\"']+)[\"']"@, false),
            ("import\\s+\\w+\\s+[\"']([^\"']+)[\"']"@, false),
        ],
        Language::Java => seq![
            ("import\\s+([\\w.]+);"@, false),
            ("import\\s+([\\w.]+)\\.\\*;"@, true),
        ],
        Language::Unknown => seq![],
    }
}

/// The model of an import.
pub struct ImportModel {
    pub module: Seq<char>,
    pub items: Seq<Seq<char>>,
    pub is_wildcard: bool,
    pub line: u32,
}

impl ImportInfo {
    /// The model of this import.
    pub open spec fn model(&self) -> ImportModel {
        ImportModel {
            module: self.module@,
            items: crate::text::string_views(self.items@),
            is_wildcard: self.is_wildcard,
            line: self.line,
        }
    }
}

/// Models of a sequence of imports.
pub open spec fn import_models(v: Seq<ImportInfo>) -> Seq<ImportModel> {
    v.map_values(|s: ImportInfo| s.model())
}

/// Every piece trimmed.
pub open spec fn trim_all(v: Seq<Seq<char>>) -> Seq<Seq<char>> {
    v.map_values(|x: Seq<char>| trim(x))
}

/// The import found on line `li` by pattern `k`: the module is group 1 (empty
/// when absent), the items are group 2 split at commas and trimmed.
pub open spec fn pattern_import(ls: Seq<Seq<char>>, lang: Language, li: int, k: int) -> Seq<ImportModel> {
    let (p, wild) = import_patterns(lang)[k];
    if regex_compiles(p) && crate::pattern::regex_captures(p, ls[li]) is Some {
        seq![ImportModel {
            module: match group_text(p, ls[li], 1) {
                Some(t) => t,
                None => seq![],
            },
            items: match group_text(p, ls[li], 2) {
                Some(t) => trim_all(split_char(t, ',')),
                None => seq![],
            },
            is_wildcard: wild,
            line: (li + 1) as u32,
        }]
    } else {
        seq![]
    }
}

/// The imports found on line `li` by the first `k` patterns.
pub open spec fn line_imports(ls: Seq<Seq<char>>, lang: Language, li: int, k: int) -> Seq<ImportModel>
    decreases k,
{
    if k <= 0 {
        seq![]
    } else {
        line_imports(ls, lang, li, k - 1) + pattern_import(ls, lang, li, k - 1)
    }
}

/// The imports found on the first `n` lines.
pub open spec fn imports_upto(ls: Seq<Seq<char>>, lang: Language, n: int) -> Seq<ImportModel>
    decreases n,
{
    if n <= 0 {
        seq![]
    } else {
        imports_upto(ls, lang, n - 1) + line_imports(ls, lang, n - 1, import_patterns(lang).len() as int)
    }
}

/// The imports of the content.
pub open spec fn imports_of(content: Seq<char>, lang: Language) -> Seq<ImportModel> {
    imports_upto(lines(content), lang, lines(content).len() as int)
}

fn import_pattern_list(lang: Language) -> (r: Vec<(&'static str, bool)>)
    ensures
        r@.map_values(|e: (&str, bool)| (e.0@, e.1)) == import_patterns(lang),
{
    let r = match lang {
        Language::Rust => vec![
            ("use\\s+([\\w:]+)(?:::\\{([^}]+)\\})?", false),
            ("use\\s+([\\w:]+)::\\*", true),
        ],
        Language::Python => vec![
            ("import\\s+([\\w.]+)", false),
            ("from\\s+([\\w.]+)\\s+import\\s+(.+)", false),
            ("from\\s+([\\w.]+)\\s+import\\s+\\*", true),
        ],
        Language::JavaScript | Language::TypeScript => vec![
            ("import\\s+.*\\s+from\\s+['\"]([^'\"]+)['\"]", false),
            ("import\\s+['\"]([^'\"]+)['\"]", false),
            ("require\\s*\\(\\s*['\"]([^'\"]+)['\"]\\s*\\)", false),
        ],
        Language::Go => vec![
            ("import\\s+[\"']([^\"']+)[\"']", false),
            ("import\\s+\\w+\\s+[\"']([^\"']+)[\"']", false),
        ],
        Language::Java => vec![
            ("import\\s+([\\w.]+);", false),
            ("import\\s+([\\w.]+)\\.\\*;", true),
        ],
        Language::Unknown => vec![],
    };
    assert(r@.map_values(|e: (&str, bool)| (e.0@, e.1)) =~= import_patterns(lang));
    r
}

/// The comma-separated items of an import, trimmed.
fn split_items(t: &str) -> (r: Vec<String>)
    ensures
        crate::text::string_views(r@) == trim_all(split_char(t@, ',')),
{
    let tc = chars_of(t);
    let pieces = split_on_char(&tc, ',');
    let ghost pv = views(pieces@);
    let mut out: Vec<String> = Vec::new();
    let mut i: usize = 0;
    while i < pieces.len()
        invariant
            i <= pieces.len(),
            pv == views(pieces@),
            crate::text::string_views(out@) == trim_all(pv.take(i as int)),
        decreases pieces.len() - i,
    {
        let p = trim_chars(&pieces[i]);
        let ghost o = out@;
        let st = string_from_chars(&p);
        out.push(st);
        proof {
            assert(pv[i as int] == pieces@[i as int]@);
            assert(out@ =~= o.push(st));
            assert(crate::text::string_views(out@) =~= crate::text::string_views(o).push(st@));
            assert(pv.take(i + 1) =~= pv.take(i as int).push(pv[i as int]));
            assert(trim_all(pv.take(i + 1)) =~= trim_all(pv.take(i as int)).push(trim(pv[i as int])));
        }
        i += 1;
    }
    assert(pv.take(pieces.len() as int) =~= pv);
    out
}

impl CodeAnalyzer {
    /// Extracts import statements, line by line and pattern by pattern.
    pub fn extract_imports(&self, content: &str, language: Language) -> (r: Vec<ImportInfo>)
        requires
            content@.len() <= i32::MAX,
        ensures
            import_models(r@) == imports_of(content@, language),
    {
        let cs = chars_of(content);
        let ls = lines_of(&cs);
        proof {
            crate::text::lemma_lines_bound(content@);
        }
        let ghost lv = views(ls@);
        let pats = import_pattern_list(language);
        let ghost pv = import_patterns(language);
        let mut compiled: Vec<Option<crate::pattern::Pattern>> = Vec::new();
        let mut k: usize = 0;
        while k < pats.len()
            invariant
                k <= pats.len(),
                pats@.map_values(|e: (&str, bool)| (e.0@, e.1)) == pv,
                compiled@.len() == k,
                forall|m: int| 0 <= m < k ==> (#[trigger] compiled@[m] is Some <==> regex_compiles(
                    pv[m].0,
                )) && (compiled@[m] matches Some(x) ==> x.source() == pv[m].0),
            decreases pats.len() - k,
        {
            assert(pats@[k as int].0@ == pv[k as int].0);
            compiled.push(compile(pats[k].0));
            k += 1;
        }
        let mut out: Vec<ImportInfo> = Vec::new();
        let mut li: usize = 0;
        while li < ls.len()
            invariant
                li <= ls.len(),
                lv == views(ls@),
                lv == lines(content@),
                lv.len() <= i32::MAX,
                pats@.map_values(|e: (&str, bool)| (e.0@, e.1)) == pv,
                pv == import_patterns(language),
                compiled@.len() == pv.len(),
                forall|m: int| 0 <= m < pv.len() ==> (#[trigger] compiled@[m] is Some <==> regex_compiles(
                    pv[m].0,
                )) && (compiled@[m] matches Some(x) ==> x.source() == pv[m].0),
                import_models(out@) == imports_upto(lv, language, li as int),
            decreases ls.len() - li,
        {
            let line_str = string_from_chars(&ls[li]);
            let ghost base = import_models(out@);
            let mut k: usize = 0;
            while k < pats.len()
                invariant
                    k <= pats.len(),
                    li < ls.len(),
                    lv == views(ls@),
                    lv.len() <= i32::MAX,
                    line_str@ == lv[li as int],
                    pats@.map_values(|e: (&str, bool)| (e.0@, e.1)) == pv,
                    pv == import_patterns(language),
                    compiled@.len() == pv.len(),
                    forall|m: int| 0 <= m < pv.len() ==> (#[trigger] compiled@[m] is Some
                        <==> regex_compiles(pv[m].0)) && (compiled@[m] matches Some(x) ==> x.source()
                        == pv[m].0),
                    import_models(out@) == base + line_imports(lv, language, li as int, k as int),
                decreases pats.len() - k,
            {
                assert(pats@[k as int].1 == pv[k as int].1);
                let ghost o = out@;
                match &compiled[k] {
                    Some(re) => {
                        match crate::pattern::captures(re, line_str.as_str()) {
                            Some(_) => {
                                let module = match crate::pattern::capture_group(re, line_str.as_str(), 1) {
                                    Some(m) => m,
                                    None => String::new(),
                                };
                                let items = match crate::pattern::capture_group(re, line_str.as_str(), 2) {
                                    Some(t) => split_items(t.as_str()),
                                    None => Vec::new(),
                                };
                                let info = ImportInfo {
                                    module,
                                    items,
                                    is_wildcard: pats[k].1,
                                    line: (li + 1) as u32,
                                };
                                out.push(info);
                                assert(crate::text::string_views(info.items@) == match group_text(
                                    pv[k as int].0,
                                    lv[li as int],
                                    2,
                                ) {
                                    Some(t) => trim_all(split_char(t, ',')),
                                    None => seq![],
                                });
                                assert(pattern_import(lv, language, li as int, k as int) =~= seq![
                                    info.model(),
                                ]);
                                assert(import_models(out@) =~= import_models(o).push(info.model()));
                            },
                            None => {
                                assert(pattern_import(lv, language, li as int, k as int) =~= seq![]);
                            },
                        }
                    },
                    None => {
                        assert(pattern_import(lv, language, li as int, k as int) =~= seq![]);
                    },
                }
                assert(import_models(out@) =~= base + line_imports(lv, language, li as int, k + 1));
                k += 1;
            }
            li += 1;
        }
        out
    }
}

impl Default for CodeAnalyzer {
    /// An analyzer with the default configuration.
    fn default() -> (r: CodeAnalyzer)
        ensures
            is_default_config(r.spec_config()),
    {
        CodeAnalyzer::new()
    }
}

// ─── Whole-file analysis ─────────────────────────────────────────────────────

/// Every symbol found on line `li` starts at line `li + 1`.
proof fn lemma_line_symbols_start(ls: Seq<Seq<char>>, lang: Language, li: int, k: int)
    requires
        0 <= li < ls.len() <= i32::MAX,
    ensures
        forall|j: int|
            0 <= j < line_symbols(ls, lang, li, k).len() ==> (#[trigger] line_symbols(
                ls,
                lang,
                li,
                k,
            )[j]).start_line == li + 1,
    decreases k,
{
    if k > 0 {
        lemma_line_symbols_start(ls, lang, li, k - 1);
    }
}

/// Every symbol found on the first `n` lines starts at line one or later.
pub proof fn lemma_symbols_start_at_one(ls: Seq<Seq<char>>, lang: Language, n: int)
    requires
        0 <= n <= ls.len() <= i32::MAX,
    ensures
        forall|j: int|
            0 <= j < symbols_upto(ls, lang, n).len() ==> (#[trigger] symbols_upto(ls, lang, n)[j]).start_line
                >= 1,
    decreases n,
{
    if n > 0 {
        lemma_symbols_start_at_one(ls, lang, n - 1);
        lemma_line_symbols_start(ls, lang, n - 1, function_patterns(lang).len() as int);
        let a = symbols_upto(ls, lang, n - 1);
        let b = line_symbols(ls, lang, n - 1, function_patterns(lang).len() as int);
        assert(symbols_upto(ls, lang, n) == a + b);
        assert forall|j: int| 0 <= j < symbols_upto(ls, lang, n).len() implies (#[trigger] symbols_upto(
            ls,
            lang,
            n,
        )[j]).start_line >= 1 by {
            if j < a.len() {
                assert(symbols_upto(ls, lang, n)[j] == a[j]);
            } else {
                assert(symbols_upto(ls, lang, n)[j] == b[j - a.len()]);
            }
        }
    }
}

/// The file-level metrics of the content.
pub open spec fn metrics_of(content: Seq<char>, lang: Language) -> ComplexityMetrics {
    let ls = lines(content);
    let counts = line_counts(ls, lang);
    ComplexityMetrics {
        cyclomatic: cyclomatic_of(content, lang) as u32,
        cognitive: cognitive_of(content, lang) as u32,
        loc: ls.len() as u32,
        sloc: (ls.len() - counts.0 - counts.1) as u32,
        comment_lines: counts.1 as u32,
        blank_lines: counts.0 as u32,
        max_nesting: max_nesting_of(content) as u32,
        parameter_count: 0,
    }
}

/// The analysis of one file.
#[derive(Debug)]
pub struct FileAnalysis {
    /// File path.
    pub path: String,
    /// Detected language.
    pub language: Language,
    /// File-level metrics.
    pub metrics: ComplexityMetrics,
    /// All symbols in the file.
    pub symbols: Vec<CodeSymbol>,
    /// Detected code smells.
    pub smells: Vec<CodeSmell>,
    /// Import statements.
    pub imports: Vec<ImportInfo>,
    /// Dependencies.
    pub dependencies: Vec<String>,
    /// Analysis time, in milliseconds since the Unix epoch (UTC).
    pub analyzed_at: i64,
}

impl CodeAnalyzer {
    /// Analyzes code content: line and complexity metrics, symbols, smells and
    /// imports.
    pub fn analyze_content(&self, path: String, content: &str, language: Language) -> (r: Result<
        FileAnalysis,
        AnalyzerError,
    >)
        requires
            content@.len() <= i32::MAX,
            cyclomatic_of(content@, language) <= u32::MAX,
            cognitive_of(content@, language) <= u32::MAX,
        ensures
            r matches Ok(fa) && {
                &&& fa.path@ == path@
                &&& fa.language == language
                &&& fa.metrics == metrics_of(content@, language)
                &&& symbol_models(fa.symbols@) == symbols_of(content@, language)
                &&& smell_models(fa.smells@) == smells_of(
                    self.spec_config(),
                    path@,
                    content@,
                    metrics_of(content@, language),
                    symbols_of(content@, language),
                )
                &&& import_models(fa.imports@) == imports_of(content@, language)
                &&& fa.dependencies@.len() == 0
            },
    {
        let cs = chars_of(content);
        let ls = lines_of(&cs);
        proof {
            crate::text::lemma_lines_bound(content@);
        }
        let (blank, comment) = self.count_lines(&ls, language);
        let total: u32 = ls.len() as u32;
        let metrics = ComplexityMetrics {
            cyclomatic: self.calculate_cyclomatic(&cs, language),
            cognitive: self.calculate_cognitive(&cs, language),
            loc: total,
            sloc: total - blank as u32 - comment as u32,
            comment_lines: comment as u32,
            blank_lines: blank as u32,
            max_nesting: self.calculate_max_nesting(&cs, language),
            parameter_count: 0,
        };
        let symbols = match self.extract_symbols(content, language) {
            Ok(v) => v,
            Err(e) => {
                return Err(e);
            },
        };
        proof {
            lemma_symbols_start_at_one(lines(content@), language, lines(content@).len() as int);
            assert forall|i: int|
                0 <= i < symbol_models(symbols@).len() implies (#[trigger] symbol_models(
                symbols@,
            )[i]).start_line >= 1 by {
                assert(symbol_models(symbols@)[i] == symbols_of(content@, language)[i]);
            }
        }
        let smells = self.detect_smells(path.as_str(), content, language, &metrics, &symbols);
        let imports = self.extract_imports(content, language);
        Ok(
            FileAnalysis {
                path,
                language,
                metrics,
                symbols,
                smells,
                imports,
                dependencies: Vec::new(),
                analyzed_at: crate::clock::now_millis(),
            },
        )
    }
}

} // verus!
