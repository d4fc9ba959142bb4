//! Conversations with an agent: turns, token accounting, titles, and
//! export as Markdown, HTML or export records.

use crate::text::{chars_of, dec, extend_str, lines, lines_of, push_dec, str_eq, string_from_chars, trim, views};
use vstd::prelude::*;

verus! {

/// Unique identifier of a conversation.
#[derive(Debug, Clone, PartialEq, Eq, Hash)]
pub struct ConversationId(pub String);

impl ConversationId {
    /// A fresh random conversation ID (a version-4 UUID).
    pub fn new() -> (r: ConversationId)
        ensures
            r.0@.len() == 36,
    {
        ConversationId(crate::ids::new_uuid_v4())
    }
}

impl ConversationId {
    /// The conversation ID of an existing UUID: its hyphenated text.
    pub fn from_uuid(uuid: uuid::Uuid) -> (r: ConversationId)
        ensures
            crate::ids::is_hyphenated_uuid(r.0@),
    {
        ConversationId(crate::ids::uuid_text(&uuid))
    }
}

impl Default for ConversationId {
    /// A fresh random conversation ID.
    fn default() -> (r: ConversationId)
        ensures
            r.0@.len() == 36,
    {
        ConversationId::new()
    }
}

/// A tool call made during a turn, with its arguments as JSON text.
#[derive(Debug, Clone, PartialEq, Eq)]
pub struct ToolCall {
    /// Call identifier.
    pub id: String,
    /// Tool name.
    pub name: String,
    /// Arguments, as JSON text.
    pub arguments: String,
}

/// The result of a tool call.
#[derive(Debug, Clone, PartialEq, Eq)]
pub struct ToolResult {
    /// The call this result answers.
    pub tool_call_id: String,
    /// The tool's output.
    pub output: String,
}

/// Token usage statistics.
#[derive(Debug, Clone, Copy, PartialEq, Eq, Structural)]
pub struct TokenUsage {
    /// Input tokens (prompt).
    pub input: u32,
    /// Output tokens (completion).
    pub output: u32,
    /// Total tokens.
    pub total: u32,
}

impl TokenUsage {
    /// Usage of `input` and `output` tokens, totalling their sum.
    pub fn new(input: u32, output: u32) -> (r: TokenUsage)
        requires
            input + output <= u32::MAX,
        ensures
            r == (TokenUsage { input, output, total: (input + output) as u32 }),
    {
        TokenUsage { input, output, total: input + output }
    }
}

/// A single turn of a conversation.
#[derive(Debug, Clone)]
pub struct Turn {
    /// Turn identifier.
    pub id: String,
    /// The user's input message.
    pub user_message: String,
    /// The assistant's response.
    pub assistant_response: String,
    /// Tool calls made during this turn.
    pub tool_calls: Vec<ToolCall>,
    /// Results of the tool calls.
    pub tool_results: Vec<ToolResult>,
    /// When the turn started (milliseconds since the Unix epoch).
    pub started_at: i64,
    /// When the turn completed.
    pub completed_at: Option<i64>,
    /// Tokens used (input and output).
    pub tokens_used: Option<TokenUsage>,
    /// The error that occurred, if any.
    pub error: Option<String>,
}

/// A fresh turn: the given message, nothing else yet.
pub open spec fn is_fresh_turn(t: Turn, user_message: Seq<char>) -> bool {
    &&& t.user_message@ == user_message
    &&& t.assistant_response@.len() == 0
    &&& t.tool_calls@.len() == 0
    &&& t.tool_results@.len() == 0
    &&& t.completed_at is None
    &&& t.tokens_used is None
    &&& t.error is None
}

impl Turn {
    /// A new turn for the user's message, started now.
    pub fn new(user_message: &str) -> (r: Turn)
        ensures
            is_fresh_turn(r, user_message@),
    {
        Turn {
            id: crate::ids::new_uuid_v4(),
            user_message: crate::text::owned(user_message),
            assistant_response: String::new(),
            tool_calls: Vec::new(),
            tool_results: Vec::new(),
            started_at: crate::clock::now_millis(),
            completed_at: None,
            tokens_used: None,
            error: None,
        }
    }

    /// The turn with the given response.
    pub fn with_response(self, response: &str) -> (r: Turn)
        ensures
            r == (Turn { assistant_response: r.assistant_response, ..self }),
            r.assistant_response@ == response@,
    {
        Turn { assistant_response: crate::text::owned(response), ..self }
    }

    /// Records a tool call.
    pub fn add_tool_call(&mut self, tool_call: ToolCall)
        ensures
            *final(self) == (Turn { tool_calls: final(self).tool_calls, ..*old(self) }),
            final(self).tool_calls@ == old(self).tool_calls@.push(tool_call),
    {
        self.tool_calls.push(tool_call);
    }

    /// Records a tool result.
    pub fn add_tool_result(&mut self, result: ToolResult)
        ensures
            *final(self) == (Turn { tool_results: final(self).tool_results, ..*old(self) }),
            final(self).tool_results@ == old(self).tool_results@.push(result),
    {
        self.tool_results.push(result);
    }

    /// Marks the turn complete, now.
    pub fn complete(&mut self)
        ensures
            *final(self) == (Turn { completed_at: final(self).completed_at, ..*old(self) }),
            final(self).completed_at matches Some(t) && crate::clock::in_clock_range(t as int),
    {
        self.completed_at = Some(crate::clock::now_millis());
    }

    /// Marks the turn failed with the error, now.
    pub fn fail(&mut self, error: &str)
        ensures
            *final(self) == (Turn {
                completed_at: final(self).completed_at,
                error: final(self).error,
                ..*old(self)
            }),
            final(self).completed_at matches Some(t) && crate::clock::in_clock_range(t as int),
            crate::analyzer::opt_view(final(self).error) == Some(error@),
    {
        self.error = Some(crate::text::owned(error));
        self.completed_at = Some(crate::clock::now_millis());
    }

    /// Whether the turn is complete.
    pub fn is_complete(&self) -> (r: bool)
        ensures
            r == self.completed_at is Some,
    {
        self.completed_at.is_some()
    }

    /// Whether the turn failed.
    pub fn has_error(&self) -> (r: bool)
        ensures
            r == self.error is Some,
    {
        self.error.is_some()
    }

    /// How long the turn took, in milliseconds, once complete.
    pub fn duration(&self) -> (r: Option<i64>)
        requires
            self.completed_at matches Some(end) ==> i64::MIN <= end - self.started_at <= i64::MAX,
        ensures
            r == match self.completed_at {
                Some(end) => Some((end - self.started_at) as i64),
                None => None,
            },
    {
        match self.completed_at {
            Some(end) => Some(end - self.started_at),
            None => None,
        }
    }
}

/// A conversation with an agent.
#[derive(Debug, Clone)]
pub struct Conversation {
    /// Unique identifier.
    pub id: ConversationId,
    /// Title (generated or set by the user).
    pub title: Option<String>,
    /// The system prompt.
    pub system_prompt: String,
    /// All turns.
    pub turns: Vec<Turn>,
    /// When the conversation was created (milliseconds since the Unix epoch).
    pub created_at: i64,
    /// When it was last updated.
    pub updated_at: i64,
    /// Metadata, as key and value; a key occurs at most once.
    pub metadata: Vec<(String, String)>,
}

/// The sum of the input and output tokens of the turns that record usage.
pub open spec fn usage_sum(turns: Seq<Turn>) -> (int, int)
    decreases turns.len(),
{
    if turns.len() == 0 {
        (0, 0)
    } else {
        let prev = usage_sum(turns.drop_last());
        match turns.last().tokens_used {
            Some(u) => (prev.0 + u.input, prev.1 + u.output),
            None => prev,
        }
    }
}

/// The sums of token usage never shrink as turns are added.
proof fn lemma_usage_sum_mono(turns: Seq<Turn>, k: int)
    requires
        0 <= k <= turns.len(),
    ensures
        0 <= usage_sum(turns.take(k)).0 <= usage_sum(turns).0,
        0 <= usage_sum(turns.take(k)).1 <= usage_sum(turns).1,
    decreases turns.len() - k,
{
    if k < turns.len() {
        lemma_usage_sum_mono(turns, k + 1);
        assert(turns.take(k + 1).drop_last() =~= turns.take(k));
    } else {
        assert(turns.take(k) =~= turns);
    }
    lemma_usage_sum_nonneg(turns.take(k));
}

/// Usage sums are not negative.
proof fn lemma_usage_sum_nonneg(turns: Seq<Turn>)
    ensures
        usage_sum(turns).0 >= 0,
        usage_sum(turns).1 >= 0,
    decreases turns.len(),
{
    if turns.len() > 0 {
        lemma_usage_sum_nonneg(turns.drop_last());
    }
}

/// The first line of at most 50 characters of the message.
pub open spec fn title_prefix(msg: Seq<char>) -> Seq<char> {
    let head = msg.take(if msg.len() < 50 {
        msg.len() as int
    } else {
        50
    });
    match first_newline(head) {
        Some(k) => head.take(k),
        None => head,
    }
}

/// The index of the first newline, if any.
pub open spec fn first_newline(s: Seq<char>) -> Option<int>
    decreases s.len(),
{
    if s.len() == 0 {
        None
    } else if s[0] == '\n' {
        Some(0)
    } else {
        match first_newline(s.drop_first()) {
            Some(k) => Some(k + 1),
            None => None,
        }
    }
}

/// The title made from a first message: its first line within 50
/// characters, trimmed, with `...` when it does not hold the whole message.
pub open spec fn title_of(msg: Seq<char>) -> Seq<char> {
    let t = title_prefix(msg);
    if t.len() < msg.len() {
        trim(t) + "..."@
    } else {
        trim(t)
    }
}

/// The conversation as it was, but for its metadata.
pub open spec fn same_but_metadata(a: Conversation, b: Conversation) -> bool {
    a == Conversation { metadata: a.metadata, ..b }
}

impl Conversation {
    /// A new, empty conversation with the system prompt.
    pub fn new(system_prompt: &str) -> (r: Conversation)
        ensures
            r.system_prompt@ == system_prompt@,
            r.title is None,
            r.turns@.len() == 0,
            r.metadata@.len() == 0,
            r.created_at == r.updated_at,
    {
        let now = crate::clock::now_millis();
        Conversation {
            id: ConversationId::new(),
            title: None,
            system_prompt: crate::text::owned(system_prompt),
            turns: Vec::new(),
            created_at: now,
            updated_at: now,
            metadata: Vec::new(),
        }
    }

    /// A new conversation with the given ID.
    pub fn with_id(id: ConversationId, system_prompt: &str) -> (r: Conversation)
        ensures
            r.id == id,
            r.system_prompt@ == system_prompt@,
            r.title is None,
            r.turns@.len() == 0,
            r.metadata@.len() == 0,
    {
        let mut conv = Conversation::new(system_prompt);
        conv.id = id;
        conv
    }

    /// The conversation with the given title.
    pub fn with_title(self, title: &str) -> (r: Conversation)
        ensures
            r == (Conversation { title: r.title, ..self }),
            crate::analyzer::opt_view(r.title) == Some(title@),
    {
        Conversation { title: Some(crate::text::owned(title)), ..self }
    }

    /// The conversation with a metadata entry: the value replaces any value
    /// the key had, a new key is added at the end.
    pub fn with_metadata(self, key: &str, value: &str) -> (r: Conversation)
        ensures
            r == (Conversation { metadata: r.metadata, ..self }),
            exists|i: int|
                0 <= i < r.metadata@.len() && #[trigger] r.metadata@[i].0@ == key@ && r.metadata@[i].1@
                    == value@,
            forall|i: int|
                0 <= i < self.metadata@.len() && self.metadata@[i].0@ != key@ ==> r.metadata@.contains(
                    #[trigger] self.metadata@[i],
                ),
            r.metadata@.len() <= self.metadata@.len() + 1,
    {
        let mut conv = self;
        let mut i: usize = 0;
        while i < conv.metadata.len()
            invariant
                i <= conv.metadata.len(),
                conv == self,
                forall|j: int| 0 <= j < i ==> (#[trigger] conv.metadata@[j]).0@ != key@,
            decreases conv.metadata.len() - i,
        {
            if crate::text::str_eq(conv.metadata[i].0.as_str(), key) {
                let ghost old_md = conv.metadata@;
                let entry = (crate::text::owned(key), crate::text::owned(value));
                conv.metadata.set(i, entry);
                assert(conv.metadata@[i as int].0@ == key@);
                assert forall|j: int|
                    0 <= j < self.metadata@.len() && self.metadata@[j].0@ != key@ implies conv.metadata@.contains(
                    #[trigger] self.metadata@[j],
                ) by {
                    assert(j != i);
                    assert(conv.metadata@[j] == self.metadata@[j]);
                }
                return conv;
            }
            i += 1;
        }
        let entry = (crate::text::owned(key), crate::text::owned(value));
        let ghost n = conv.metadata@.len();
        conv.metadata.push(entry);
        assert(conv.metadata@[n as int].0@ == key@);
        assert forall|j: int|
            0 <= j < self.metadata@.len() && self.metadata@[j].0@ != key@ implies conv.metadata@.contains(
            #[trigger] self.metadata@[j],
        ) by {
            assert(conv.metadata@[j] == self.metadata@[j]);
        }
        conv
    }

    /// Starts a new turn for the user's message and gives it back for filling in.
    pub fn start_turn(&mut self, user_message: &str) -> (r: &mut Turn)
        ensures
            is_fresh_turn(*r, user_message@),
            final(self).turns@ == old(self).turns@.push(*final(r)),
            final(self).system_prompt == old(self).system_prompt,
            final(self).title == old(self).title,
            final(self).id == old(self).id,
            final(self).metadata == old(self).metadata,
            final(self).created_at == old(self).created_at,
    {
        let turn = Turn::new(user_message);
        self.turns.push(turn);
        self.updated_at = crate::clock::now_millis();
        let n = self.turns.len();
        &mut self.turns[n - 1]
    }

    /// The most recent turn.
    pub fn current_turn(&self) -> (r: Option<&Turn>)
        ensures
            r == (if self.turns@.len() == 0 {
                None
            } else {
                Some(&self.turns@.last())
            }),
    {
        if self.turns.len() == 0 {
            None
        } else {
            Some(&self.turns[self.turns.len() - 1])
        }
    }

    /// The most recent turn, for changing it in place.
    pub fn current_turn_mut(&mut self) -> (r: Option<&mut Turn>)
        ensures
            old(self).turns@.len() == 0 <==> r is None,
            old(self).turns@.len() == 0 ==> *final(self) == *old(self),
            r matches Some(t) ==> {
                &&& *t == old(self).turns@.last()
                &&& *final(self) == (Conversation {
                    turns: final(self).turns,
                    ..*old(self)
                })
                &&& final(self).turns@ == old(self).turns@.drop_last().push(*final(t))
            },
    {
        let n = self.turns.len();
        if n == 0 {
            None
        } else {
            Some(&mut self.turns[n - 1])
        }
    }

    /// The number of turns.
    pub fn len(&self) -> (r: usize)
        ensures
            r == self.turns@.len(),
    {
        self.turns.len()
    }

    /// Whether there are no turns.
    pub fn is_empty(&self) -> (r: bool)
        ensures
            r == (self.turns@.len() == 0),
    {
        self.turns.len() == 0
    }

    /// The tokens used over all turns that record usage.
    pub fn total_tokens(&self) -> (r: TokenUsage)
        requires
            usage_sum(self.turns@).0 + usage_sum(self.turns@).1 <= u32::MAX,
        ensures
            r.input == usage_sum(self.turns@).0,
            r.output == usage_sum(self.turns@).1,
            r.total == r.input + r.output,
    {
        let mut acc = TokenUsage::new(0, 0);
        let mut i: usize = 0;
        while i < self.turns.len()
            invariant
                i <= self.turns.len(),
                usage_sum(self.turns@).0 + usage_sum(self.turns@).1 <= u32::MAX,
                acc.input == usage_sum(self.turns@.take(i as int)).0,
                acc.output == usage_sum(self.turns@.take(i as int)).1,
                acc.total == acc.input + acc.output,
            decreases self.turns.len() - i,
        {
            proof {
                lemma_usage_sum_mono(self.turns@, i + 1);
                assert(self.turns@.take(i + 1).drop_last() =~= self.turns@.take(i as int));
            }
            match self.turns[i].tokens_used {
                Some(u) => {
                    acc = TokenUsage::new(acc.input + u.input, acc.output + u.output);
                },
                None => {},
            }
            i += 1;
        }
        assert(self.turns@.take(self.turns.len() as int) =~= self.turns@);
        acc
    }

    /// Titles the conversation from its first message, when it has a first
    /// message and no title yet.
    pub fn auto_title(&mut self)
        ensures
            *final(self) == (Conversation { title: final(self).title, ..*old(self) }),
            final(self).title == old(self).title || old(self).title is None,
            old(self).title is None && old(self).turns@.len() > 0 ==> crate::analyzer::opt_view(
                final(self).title,
            ) == Some(title_of(old(self).turns@[0].user_message@)),
            old(self).title is Some || old(self).turns@.len() == 0 ==> final(self).title == old(self).title,
    {
        if self.title.is_none() && self.turns.len() > 0 {
            let msg = chars_of(self.turns[0].user_message.as_str());
            let limit: usize = if msg.len() < 50 { msg.len() } else { 50 };
            let mut t: Vec<char> = Vec::new();
            let mut k: usize = 0;
            assert(msg@.take(limit as int).take(0) =~= Seq::<char>::empty());
            while k < limit && msg[k] != '\n'
                invariant
                    k <= limit <= msg@.len(),
                    t@ == msg@.take(k as int),
                    forall|j: int| 0 <= j < k ==> msg@[j] != '\n',
                decreases limit - k,
            {
                t.push(msg[k]);
                assert(msg@.take(k + 1) =~= msg@.take(k as int).push(msg@[k as int]));
                k += 1;
            }
            proof {
                let head = msg@.take(limit as int);
                lemma_first_newline(head, k as int);
                assert(head.take(k as int) =~= msg@.take(k as int));
                if k == limit {
                    assert(head =~= msg@.take(k as int));
                }
                assert(t@ == title_prefix(msg@));
            }
            let trimmed = crate::text::trim_chars(&t);
            let mut title = trimmed;
            if t.len() < msg.len() {
                extend_str(&mut title, "...");
            }
            self.title = Some(string_from_chars(&title));
        }
    }
}

/// The first newline is where a scan stops.
proof fn lemma_first_newline(s: Seq<char>, k: int)
    requires
        0 <= k <= s.len(),
        forall|j: int| 0 <= j < k ==> s[j] != '\n',
        k < s.len() ==> s[k] == '\n',
    ensures
        first_newline(s) == (if k < s.len() {
            Some(k)
        } else {
            None::<int>
        }),
    decreases k,
{
    if k > 0 {
        lemma_first_newline(s.drop_first(), k - 1);
    }
}

// ─── Export ──────────────────────────────────────────────────────────────────

/// The HTML escape of one character.
pub open spec fn html_escape_char(c: char) -> Seq<char> {
    if c == '&' {
        "&amp;"@
    } else if c == '<' {
        "&lt;"@
    } else if c == '>' {
        "&gt;"@
    } else if c == '"' {
        "&quot;"@
    } else if c == '\'' {
        "&#39;"@
    } else {
        seq![c]
    }
}

/// `s` with `&`, `<`, `>`, `"` and `'` written as HTML entities.
pub open spec fn html_escaped(s: Seq<char>) -> Seq<char>
    decreases s.len(),
{
    if s.len() == 0 {
        seq![]
    } else {
        html_escaped(s.drop_last()) + html_escape_char(s.last())
    }
}

/// Escapes the HTML special characters of `s`.
pub fn escape_html(s: &str) -> (r: String)
    ensures
        r@ == html_escaped(s@),
{
    let cs = chars_of(s);
    let mut out: Vec<char> = Vec::new();
    let mut i: usize = 0;
    while i < cs.len()
        invariant
            i <= cs.len(),
            cs@ == s@,
            out@ == html_escaped(cs@.take(i as int)),
        decreases cs.len() - i,
    {
        assert(cs@.take(i + 1).drop_last() =~= cs@.take(i as int));
        let c = cs[i];
        if c == '&' {
            extend_str(&mut out, "&amp;");
        } else if c == '<' {
            extend_str(&mut out, "&lt;");
        } else if c == '>' {
            extend_str(&mut out, "&gt;");
        } else if c == '"' {
            extend_str(&mut out, "&quot;");
        } else if c == '\'' {
            extend_str(&mut out, "&#39;");
        } else {
            out.push(c);
        }
        i += 1;
    }
    assert(cs@.take(cs.len() as int) =~= cs@);
    string_from_chars(&out)
}

/// Supported export formats.
#[derive(Debug, Clone, Copy, PartialEq, Eq, Structural)]
pub enum ExportFormat {
    /// JSON.
    Json,
    /// Markdown.
    Markdown,
    /// HTML.
    Html,
}

/// The file extension of a format.
pub open spec fn format_extension(f: ExportFormat) -> Seq<char> {
    match f {
        ExportFormat::Json => "json"@,
        ExportFormat::Markdown => "md"@,
        ExportFormat::Html => "html"@,
    }
}

/// The format a lowercased name stands for.
pub open spec fn format_named(l: Seq<char>) -> Option<ExportFormat> {
    if l == "json"@ {
        Some(ExportFormat::Json)
    } else if l == "markdown"@ || l == "md"@ {
        Some(ExportFormat::Markdown)
    } else if l == "html"@ {
        Some(ExportFormat::Html)
    } else {
        None
    }
}

impl ExportFormat {
    /// The file extension of this format.
    pub fn extension(&self) -> (r: &'static str)
        ensures
            r@ == format_extension(*self),
    {
        match self {
            ExportFormat::Json => "json",
            ExportFormat::Markdown => "md",
            ExportFormat::Html => "html",
        }
    }

    /// The format a name stands for, in any letter case.
    pub fn parse(s: &str) -> (r: Option<ExportFormat>)
        ensures
            r == format_named(crate::text::str_lower(s@)),
    {
        let l = crate::text::str_to_lowercase(s);
        let ls = l.as_str();
        if crate::text::str_eq(ls, "json") {
            Some(ExportFormat::Json)
        } else if crate::text::str_eq(ls, "markdown") || crate::text::str_eq(ls, "md") {
            Some(ExportFormat::Markdown)
        } else if crate::text::str_eq(ls, "html") {
            Some(ExportFormat::Html)
        } else {
            None
        }
    }
}

/// Parsing a format's extension, in lowercase or in uppercase, gives the
/// format back.
pub proof fn lemma_parse_extension(f: ExportFormat)
    ensures
        format_named(crate::text::str_lower(format_extension(f))) == Some(f),
        format_named(crate::text::str_lower(crate::text::str_upper(format_extension(f)))) == Some(f),
{
    let e = format_extension(f);
    reveal_strlit("json");
    reveal_strlit("md");
    reveal_strlit("html");
    assert(crate::text::all_ascii(e));
    crate::text::lemma_lower_of_lowercase(e);
    crate::text::lemma_lower_of_upper(e);
    reveal_strlit("markdown");
    assert(crate::text::str_lower(e) == e);
    match f {
        ExportFormat::Json => {
            assert(e == "json"@);
        },
        ExportFormat::Markdown => {
            assert(e == "md"@);
            assert(e != "json"@);
        },
        ExportFormat::Html => {
            assert(e == "html"@);
            assert(e[0] != "json"@[0]);
            assert(e != "json"@ && e != "markdown"@ && e != "md"@);
        },
    }
}

/// What chrono's `format("%B %d, %Y at %H:%M UTC")` gives for the UTC
/// instant `ms` milliseconds after the Unix epoch.
pub uninterp spec fn long_date_text(ms: i64) -> Seq<char>;

/// `DateTime::from_timestamp_millis` and `format("%B %d, %Y at %H:%M UTC")`
/// of chrono: the instant as a long UTC date, by the name `long_date_text`.
#[verifier::external_body]
fn format_long_date(ms: i64) -> (r: String)
    requires
        crate::clock::in_clock_range(ms as int),
    ensures
        r@ == long_date_text(ms),
{
    chrono::DateTime::from_timestamp_millis(ms).unwrap().format("%B %d, %Y at %H:%M UTC").to_string()
}

/// Lines behind a quote mark.
pub open spec fn quoted_lines(ls: Seq<Seq<char>>) -> Seq<char>
    decreases ls.len(),
{
    if ls.len() == 0 {
        seq![]
    } else {
        quoted_lines(ls.drop_last()) + "> "@ + ls.last() + "\n"@
    }
}

/// The list of tool calls: each name in backticks, with its arguments
/// unless they are `null` or `{}`.
pub open spec fn tool_call_lines(cs: Seq<ToolCall>) -> Seq<char>
    decreases cs.len(),
{
    if cs.len() == 0 {
        seq![]
    } else {
        let c = cs.last();
        tool_call_lines(cs.drop_last()) + "- `"@ + c.name@ + "`"@ + (if c.arguments@ != "null"@
            && c.arguments@ != "{}"@ {
            ": `"@ + c.arguments@ + "`"@
        } else {
            seq![]
        }) + "\n"@
    }
}

/// The opening of a turn in Markdown: its number and the user's message.
pub open spec fn turn_opening(i: nat, t: Turn) -> Seq<char> {
    "## Turn "@ + dec(i + 1) + "\n\n"@ + "**User:**\n"@ + quoted_lines(lines(t.user_message@)) + "\n"@
}

/// The tool calls of a turn in Markdown, if any.
pub open spec fn turn_tools(t: Turn) -> Seq<char> {
    if t.tool_calls@.len() > 0 {
        "**Tool Calls:**\n"@ + tool_call_lines(t.tool_calls@) + "\n"@
    } else {
        seq![]
    }
}

/// The answer of a turn in Markdown, if any.
pub open spec fn turn_answer(t: Turn) -> Seq<char> {
    if t.assistant_response@.len() > 0 {
        "**Assistant:**\n"@ + quoted_lines(lines(t.assistant_response@)) + "\n"@
    } else {
        seq![]
    }
}

/// The error of a turn in Markdown, if any.
pub open spec fn turn_error(t: Turn) -> Seq<char> {
    match t.error {
        Some(e) => "**Error:** "@ + e@ + "\n\n"@,
        None => seq![],
    }
}

/// One turn in Markdown, numbered from one.
pub open spec fn turn_markdown(i: nat, t: Turn) -> Seq<char> {
    turn_opening(i, t) + turn_tools(t) + turn_answer(t) + turn_error(t)
}

/// The first `n` turns in Markdown.
pub open spec fn turns_markdown(ts: Seq<Turn>, n: nat) -> Seq<char>
    decreases n,
{
    if n == 0 || n > ts.len() {
        seq![]
    } else {
        turns_markdown(ts, (n - 1) as nat) + turn_markdown((n - 1) as nat, ts[n - 1])
    }
}

/// The tokens of all turns.
pub open spec fn total_of(turns: Seq<Turn>) -> int {
    usage_sum(turns).0 + usage_sum(turns).1
}

/// Who answered, in the Markdown export.
pub open spec fn markdown_model(provider: Option<Seq<char>>, model: Option<Seq<char>>) -> Seq<char> {
    match provider {
        Some(p) => match model {
            Some(m) => "**Model:** "@ + m + " ("@ + p + ")  \n"@,
            None => "**Provider:** "@ + p + "  \n"@,
        },
        None => seq![],
    }
}

/// The topic, in the Markdown export.
pub open spec fn markdown_topic(c: Conversation) -> Seq<char> {
    match c.title {
        Some(t) => "**Topic:** "@ + t@ + "  \n"@,
        None => seq![],
    }
}

/// The tokens used, in the Markdown export.
pub open spec fn markdown_tokens(c: Conversation) -> Seq<char> {
    if total_of(c.turns@) > 0 {
        "**Tokens used:** "@ + dec(total_of(c.turns@) as nat) + "  \n"@
    } else {
        seq![]
    }
}

/// The heading and metadata of the Markdown export.
pub open spec fn markdown_header(c: Conversation, provider: Option<Seq<char>>, model: Option<Seq<char>>) -> Seq<char> {
    "# Chat Conversation\n\n"@ + "**Date:** "@ + long_date_text(c.created_at) + "  \n"@
        + markdown_model(provider, model) + markdown_topic(c) + markdown_tokens(c) + "\n---\n\n"@
}

/// The conversation in Markdown.
pub open spec fn markdown_text(c: Conversation, provider: Option<Seq<char>>, model: Option<Seq<char>>) -> Seq<char> {
    markdown_header(c, provider, model) + turns_markdown(c.turns@, c.turns@.len())
}

/// The view of an optional text.
pub open spec fn opt_view(o: Option<&str>) -> Option<Seq<char>> {
    match o {
        Some(s) => Some(s@),
        None => None,
    }
}

/// Appends lines behind a quote mark.
fn push_quoted(out: &mut Vec<char>, text: &str)
    ensures
        final(out)@ == old(out)@ + quoted_lines(lines(text@)),
{
    let c = chars_of(text);
    let ls = lines_of(&c);
    let ghost start = out@;
    let mut k: usize = 0;
    while k < ls.len()
        invariant
            k <= ls@.len(),
            views(ls@) == lines(text@),
            out@ == start + quoted_lines(views(ls@).take(k as int)),
        decreases ls@.len() - k,
    {
        extend_str(out, "> ");
        crate::text::extend_chars(out, ls[k].as_slice());
        extend_str(out, "\n");
        proof {
            let t = views(ls@).take(k + 1);
            assert(t.drop_last() =~= views(ls@).take(k as int));
            assert(t.last() == ls@[k as int]@);
            assert(out@ =~= start + quoted_lines(t));
        }
        k += 1;
    }
    assert(views(ls@).take(ls@.len() as int) =~= views(ls@));
}

/// Appends the list of tool calls.
fn push_tool_calls(out: &mut Vec<char>, calls: &Vec<ToolCall>)
    ensures
        final(out)@ == old(out)@ + tool_call_lines(calls@),
{
    let ghost start = out@;
    let mut k: usize = 0;
    while k < calls.len()
        invariant
            k <= calls@.len(),
            out@ == start + tool_call_lines(calls@.take(k as int)),
        decreases calls@.len() - k,
    {
        let c = &calls[k];
        extend_str(out, "- `");
        extend_str(out, c.name.as_str());
        extend_str(out, "`");
        let args = c.arguments.as_str();
        if !str_eq(args, "null") && !str_eq(args, "{}") {
            extend_str(out, ": `");
            extend_str(out, args);
            extend_str(out, "`");
        }
        extend_str(out, "\n");
        proof {
            let t = calls@.take(k + 1);
            assert(t.drop_last() =~= calls@.take(k as int));
            assert(t.last() == calls@[k as int]);
            assert(out@ =~= start + tool_call_lines(t));
        }
        k += 1;
    }
    assert(calls@.take(calls@.len() as int) =~= calls@);
}

/// Appends the opening of a turn.
fn push_turn_opening(out: &mut Vec<char>, i: usize, t: &Turn)
    requires
        i < usize::MAX,
    ensures
        final(out)@ == old(out)@ + turn_opening(i as nat, *t),
{
    let ghost start = out@;
    extend_str(out, "## Turn ");
    push_dec(out, (i + 1) as u64);
    extend_str(out, "\n\n");
    extend_str(out, "**User:**\n");
    push_quoted(out, t.user_message.as_str());
    extend_str(out, "\n");
    assert(out@ =~= start + turn_opening(i as nat, *t));
}

/// Appends the tool calls of a turn.
fn push_turn_tools(out: &mut Vec<char>, t: &Turn)
    ensures
        final(out)@ == old(out)@ + turn_tools(*t),
{
    let ghost start = out@;
    if t.tool_calls.len() > 0 {
        extend_str(out, "**Tool Calls:**\n");
        push_tool_calls(out, &t.tool_calls);
        extend_str(out, "\n");
    }
    assert(out@ =~= start + turn_tools(*t));
}

/// Appends the answer of a turn.
fn push_turn_answer(out: &mut Vec<char>, t: &Turn)
    ensures
        final(out)@ == old(out)@ + turn_answer(*t),
{
    let ghost start = out@;
    if chars_of(t.assistant_response.as_str()).len() > 0 {
        extend_str(out, "**Assistant:**\n");
        push_quoted(out, t.assistant_response.as_str());
        extend_str(out, "\n");
    }
    assert(out@ =~= start + turn_answer(*t));
}

/// Appends the error of a turn.
fn push_turn_error(out: &mut Vec<char>, t: &Turn)
    ensures
        final(out)@ == old(out)@ + turn_error(*t),
{
    let ghost start = out@;
    match &t.error {
        Some(e) => {
            extend_str(out, "**Error:** ");
            extend_str(out, e.as_str());
            extend_str(out, "\n\n");
        },
        None => {},
    }
    assert(out@ =~= start + turn_error(*t));
}

/// Appends one turn in Markdown.
fn push_turn_markdown(out: &mut Vec<char>, i: usize, t: &Turn)
    requires
        i < usize::MAX,
    ensures
        final(out)@ == old(out)@ + turn_markdown(i as nat, *t),
{
    let ghost start = out@;
    push_turn_opening(out, i, t);
    push_turn_tools(out, t);
    push_turn_answer(out, t);
    push_turn_error(out, t);
    assert(out@ =~= start + turn_markdown(i as nat, *t));
}

impl Conversation {
    /// The conversation in Markdown: a heading, the date, the model and
    /// provider, the topic and the tokens used when known, then each turn
    /// with the user's message quoted, the tool calls, the answer quoted
    /// and any error.
    pub fn export_markdown(&self, provider: Option<&str>, model: Option<&str>) -> (r: String)
        requires
            crate::clock::in_clock_range(self.created_at as int),
            total_of(self.turns@) <= u32::MAX,
        ensures
            r@ == markdown_text(*self, opt_view(provider), opt_view(model)),
    {
        let mut out: Vec<char> = Vec::new();
        extend_str(&mut out, "# Chat Conversation\n\n");
        extend_str(&mut out, "**Date:** ");
        let date = format_long_date(self.created_at);
        extend_str(&mut out, date.as_str());
        extend_str(&mut out, "  \n");
        let ghost h0 = out@;
        match provider {
            Some(p) => match model {
                Some(m) => {
                    extend_str(&mut out, "**Model:** ");
                    extend_str(&mut out, m);
                    extend_str(&mut out, " (");
                    extend_str(&mut out, p);
                    extend_str(&mut out, ")  \n");
                },
                None => {
                    extend_str(&mut out, "**Provider:** ");
                    extend_str(&mut out, p);
                    extend_str(&mut out, "  \n");
                },
            },
            None => {},
        }
        assert(out@ =~= h0 + markdown_model(opt_view(provider), opt_view(model)));
        let ghost h1 = out@;
        match &self.title {
            Some(t) => {
                extend_str(&mut out, "**Topic:** ");
                extend_str(&mut out, t.as_str());
                extend_str(&mut out, "  \n");
            },
            None => {},
        }
        assert(out@ =~= h1 + markdown_topic(*self));
        let ghost h2 = out@;
        let total = self.total_tokens();
        if total.total > 0 {
            extend_str(&mut out, "**Tokens used:** ");
            push_dec(&mut out, total.total as u64);
            extend_str(&mut out, "  \n");
        }
        assert(out@ =~= h2 + markdown_tokens(*self));
        extend_str(&mut out, "\n---\n\n");
        assert(out@ =~= markdown_header(*self, opt_view(provider), opt_view(model)));
        let ghost head = out@;
        let mut i: usize = 0;
        while i < self.turns.len()
            invariant
                i <= self.turns@.len(),
                out@ == head + turns_markdown(self.turns@, i as nat),
            decreases self.turns@.len() - i,
        {
            push_turn_markdown(&mut out, i, &self.turns[i]);
            assert(out@ =~= head + turns_markdown(self.turns@, (i + 1) as nat));
            i += 1;
        }
        string_from_chars(&out)
    }
}

/// The start of the HTML export: the document head with its style sheet.
pub const HTML_HEAD: &'static str = r#"<!DOCTYPE html>
<html lang="en">
<head>
    <meta charset="UTF-8">
    <meta name="viewport" content="width=device-width, initial-scale=1.0">
    <title>Chat Conversation</title>
    <style>
        * { box-sizing: border-box; margin: 0; padding: 0; }
        body {
            font-family: -apple-system, BlinkMacSystemFont, 'Segoe UI', Roboto, sans-serif;
            line-height: 1.6;
            max-width: 800px;
            margin: 0 auto;
            padding: 20px;
            background: #f5f5f5;
        }
        .header {
            background: linear-gradient(135deg, #667eea 0%, #764ba2 100%);
            color: white;
            padding: 20px;
            border-radius: 10px;
            margin-bottom: 20px;
        }
        .header h1 { margin-bottom: 10px; }
        .metadata { font-size: 0.9em; opacity: 0.9; }
        .turn {
            background: white;
            border-radius: 10px;
            margin-bottom: 15px;
            overflow: hidden;
            box-shadow: 0 2px 4px rgba(0,0,0,0.1);
        }
        .message {
            padding: 15px 20px;
        }
        .user-message {
            background: #e3f2fd;
            border-left: 4px solid #2196f3;
        }
        .assistant-message {
            background: white;
            border-left: 4px solid #4caf50;
        }
        .role {
            font-weight: 600;
            margin-bottom: 5px;
            color: #333;
        }
        .content {
            white-space: pre-wrap;
            word-wrap: break-word;
        }
        .tool-calls {
            background: #fff3e0;
            padding: 10px 20px;
            font-size: 0.9em;
            border-left: 4px solid #ff9800;
        }
        .tool-call {
            font-family: 'Monaco', 'Consolas', monospace;
            background: rgba(0,0,0,0.05);
            padding: 2px 6px;
            border-radius: 3px;
        }
        .error {
            background: #ffebee;
            color: #c62828;
            padding: 10px 20px;
            border-left: 4px solid #f44336;
        }
        .footer {
            text-align: center;
            padding: 20px;
            color: #666;
            font-size: 0.85em;
        }
    </style>
</head>
<body>
"#;

/// A tool call in the HTML export.
pub open spec fn tool_call_html(cs: Seq<ToolCall>) -> Seq<char>
    decreases cs.len(),
{
    if cs.len() == 0 {
        seq![]
    } else {
        tool_call_html(cs.drop_last()) + "            <div><span class=\"tool-call\">"@ + html_escaped(
            cs.last().name@,
        ) + "</span></div>\n"@
    }
}

/// The user's message of a turn in HTML.
pub open spec fn turn_user_html(t: Turn) -> Seq<char> {
    "    <div class=\"turn\">\n"@ + "        <div class=\"message user-message\">\n"@
        + "            <div class=\"role\">User</div>\n"@ + "            <div class=\"content\">"@
        + html_escaped(t.user_message@) + "</div>\n"@ + "        </div>\n"@
}

/// The tool calls of a turn in HTML, if any.
pub open spec fn turn_tools_html(t: Turn) -> Seq<char> {
    if t.tool_calls@.len() > 0 {
        "        <div class=\"tool-calls\">\n"@ + "            <strong>Tool Calls:</strong>\n"@
            + tool_call_html(t.tool_calls@) + "        </div>\n"@
    } else {
        seq![]
    }
}

/// The answer of a turn in HTML, if any.
pub open spec fn turn_answer_html(t: Turn) -> Seq<char> {
    if t.assistant_response@.len() > 0 {
        "        <div class=\"message assistant-message\">\n"@
            + "            <div class=\"role\">Assistant</div>\n"@
            + "            <div class=\"content\">"@ + html_escaped(t.assistant_response@)
            + "</div>\n"@ + "        </div>\n"@
    } else {
        seq![]
    }
}

/// The error of a turn in HTML, if any, and the end of the turn.
pub open spec fn turn_end_html(t: Turn) -> Seq<char> {
    (match t.error {
        Some(e) => "        <div class=\"error\">Error: "@ + html_escaped(e@) + "</div>\n"@,
        None => seq![],
    }) + "    </div>\n\n"@
}

/// One turn in HTML.
pub open spec fn turn_html(t: Turn) -> Seq<char> {
    turn_user_html(t) + turn_tools_html(t) + turn_answer_html(t) + turn_end_html(t)
}

/// The first `n` turns in HTML.
pub open spec fn turns_html(ts: Seq<Turn>, n: nat) -> Seq<char>
    decreases n,
{
    if n == 0 || n > ts.len() {
        seq![]
    } else {
        turns_html(ts, (n - 1) as nat) + turn_html(ts[n - 1])
    }
}

/// The model and provider in the HTML export, when both are known.
pub open spec fn html_model(provider: Option<Seq<char>>, model: Option<Seq<char>>) -> Seq<char> {
    match (provider, model) {
        (Some(p), Some(m)) => "            <div>Model: "@ + html_escaped(m) + " ("@ + html_escaped(p)
            + ")</div>\n"@,
        _ => seq![],
    }
}

/// The topic and the tokens in the HTML export, when known.
pub open spec fn html_topic_tokens(c: Conversation) -> Seq<char> {
    (match c.title {
        Some(t) => "            <div>Topic: "@ + html_escaped(t@) + "</div>\n"@,
        None => seq![],
    }) + (if total_of(c.turns@) > 0 {
        "            <div>Tokens: "@ + dec(total_of(c.turns@) as nat) + "</div>\n"@
    } else {
        seq![]
    })
}

/// The header of the HTML export.
pub open spec fn html_header(c: Conversation, provider: Option<Seq<char>>, model: Option<Seq<char>>) -> Seq<char> {
    HTML_HEAD@ + "    <div class=\"header\">\n"@ + "        <h1>Chat Conversation</h1>\n"@
        + "        <div class=\"metadata\">\n"@ + "            <div>Date: "@ + long_date_text(
        c.created_at,
    ) + "</div>\n"@ + html_model(provider, model) + html_topic_tokens(c) + "        </div>\n"@
        + "    </div>\n\n"@
}

/// The end of the HTML export.
pub open spec fn html_footer() -> Seq<char> {
    "    <div class=\"footer\">\n"@ + "        Exported with Ember AI Agent Framework\n"@
        + "    </div>\n"@ + "</body>\n</html>\n"@
}

/// The conversation as an HTML page.
pub open spec fn html_text(c: Conversation, provider: Option<Seq<char>>, model: Option<Seq<char>>) -> Seq<char> {
    html_header(c, provider, model) + turns_html(c.turns@, c.turns@.len()) + html_footer()
}

/// Appends escaped text.
fn push_escaped(out: &mut Vec<char>, s: &str)
    ensures
        final(out)@ == old(out)@ + html_escaped(s@),
{
    let e = escape_html(s);
    extend_str(out, e.as_str());
}

fn push_turn_user_html(out: &mut Vec<char>, t: &Turn)
    ensures
        final(out)@ == old(out)@ + turn_user_html(*t),
{
    let ghost start = out@;
    extend_str(out, "    <div class=\"turn\">\n");
    extend_str(out, "        <div class=\"message user-message\">\n");
    extend_str(out, "            <div class=\"role\">User</div>\n");
    extend_str(out, "            <div class=\"content\">");
    push_escaped(out, t.user_message.as_str());
    extend_str(out, "</div>\n");
    extend_str(out, "        </div>\n");
    assert(out@ =~= start + turn_user_html(*t));
}

fn push_turn_tools_html(out: &mut Vec<char>, t: &Turn)
    ensures
        final(out)@ == old(out)@ + turn_tools_html(*t),
{
    let ghost start = out@;
    if t.tool_calls.len() > 0 {
        extend_str(out, "        <div class=\"tool-calls\">\n");
        extend_str(out, "            <strong>Tool Calls:</strong>\n");
        let ghost mid = out@;
        let mut k: usize = 0;
        while k < t.tool_calls.len()
            invariant
                k <= t.tool_calls@.len(),
                out@ == mid + tool_call_html(t.tool_calls@.take(k as int)),
            decreases t.tool_calls@.len() - k,
        {
            extend_str(out, "            <div><span class=\"tool-call\">");
            push_escaped(out, t.tool_calls[k].name.as_str());
            extend_str(out, "</span></div>\n");
            proof {
                let c = t.tool_calls@.take(k + 1);
                assert(c.drop_last() =~= t.tool_calls@.take(k as int));
                assert(c.last() == t.tool_calls@[k as int]);
                assert(out@ =~= mid + tool_call_html(c));
            }
            k += 1;
        }
        assert(t.tool_calls@.take(t.tool_calls@.len() as int) =~= t.tool_calls@);
        extend_str(out, "        </div>\n");
    }
    assert(out@ =~= start + turn_tools_html(*t));
}

fn push_turn_answer_html(out: &mut Vec<char>, t: &Turn)
    ensures
        final(out)@ == old(out)@ + turn_answer_html(*t),
{
    let ghost start = out@;
    if chars_of(t.assistant_response.as_str()).len() > 0 {
        extend_str(out, "        <div class=\"message assistant-message\">\n");
        extend_str(out, "            <div class=\"role\">Assistant</div>\n");
        extend_str(out, "            <div class=\"content\">");
        push_escaped(out, t.assistant_response.as_str());
        extend_str(out, "</div>\n");
        extend_str(out, "        </div>\n");
    }
    assert(out@ =~= start + turn_answer_html(*t));
}

fn push_turn_end_html(out: &mut Vec<char>, t: &Turn)
    ensures
        final(out)@ == old(out)@ + turn_end_html(*t),
{
    let ghost start = out@;
    match &t.error {
        Some(e) => {
            extend_str(out, "        <div class=\"error\">Error: ");
            push_escaped(out, e.as_str());
            extend_str(out, "</div>\n");
        },
        None => {},
    }
    extend_str(out, "    </div>\n\n");
    assert(out@ =~= start + turn_end_html(*t));
}

fn push_turn_html(out: &mut Vec<char>, t: &Turn)
    ensures
        final(out)@ == old(out)@ + turn_html(*t),
{
    let ghost start = out@;
    push_turn_user_html(out, t);
    push_turn_tools_html(out, t);
    push_turn_answer_html(out, t);
    push_turn_end_html(out, t);
    assert(out@ =~= start + turn_html(*t));
}

fn push_html_model(out: &mut Vec<char>, provider: Option<&str>, model: Option<&str>)
    ensures
        final(out)@ == old(out)@ + html_model(opt_view(provider), opt_view(model)),
{
    let ghost start = out@;
    match (provider, model) {
        (Some(p), Some(m)) => {
            extend_str(out, "            <div>Model: ");
            push_escaped(out, m);
            extend_str(out, " (");
            push_escaped(out, p);
            extend_str(out, ")</div>\n");
        },
        _ => {},
    }
    assert(out@ =~= start + html_model(opt_view(provider), opt_view(model)));
}

fn push_html_topic_tokens(out: &mut Vec<char>, c: &Conversation)
    requires
        total_of(c.turns@) <= u32::MAX,
    ensures
        final(out)@ == old(out)@ + html_topic_tokens(*c),
{
    let ghost start = out@;
    match &c.title {
        Some(t) => {
            extend_str(out, "            <div>Topic: ");
            push_escaped(out, t.as_str());
            extend_str(out, "</div>\n");
        },
        None => {},
    }
    let ghost mid = out@;
    let total = c.total_tokens();
    if total.total > 0 {
        extend_str(out, "            <div>Tokens: ");
        push_dec(out, total.total as u64);
        extend_str(out, "</div>\n");
    }
    assert(out@ =~= start + html_topic_tokens(*c));
}

fn push_html_header(out: &mut Vec<char>, c: &Conversation, provider: Option<&str>, model: Option<&str>)
    requires
        crate::clock::in_clock_range(c.created_at as int),
        total_of(c.turns@) <= u32::MAX,
    ensures
        final(out)@ == old(out)@ + html_header(*c, opt_view(provider), opt_view(model)),
{
    let ghost start = out@;
    extend_str(out, HTML_HEAD);
    extend_str(out, "    <div class=\"header\">\n");
    extend_str(out, "        <h1>Chat Conversation</h1>\n");
    extend_str(out, "        <div class=\"metadata\">\n");
    extend_str(out, "            <div>Date: ");
    let date = format_long_date(c.created_at);
    extend_str(out, date.as_str());
    extend_str(out, "</div>\n");
    push_html_model(out, provider, model);
    push_html_topic_tokens(out, c);
    extend_str(out, "        </div>\n");
    extend_str(out, "    </div>\n\n");
    assert(out@ =~= start + html_header(*c, opt_view(provider), opt_view(model)));
}

impl Conversation {
    /// The conversation as an HTML page: the header with the date, the
    /// model and provider when both are known, the topic and the tokens;
    /// each turn with the user's message, the tool calls, the answer and
    /// any error, every text escaped; and a footer.
    pub fn export_html(&self, provider: Option<&str>, model: Option<&str>) -> (r: String)
        requires
            crate::clock::in_clock_range(self.created_at as int),
            total_of(self.turns@) <= u32::MAX,
        ensures
            r@ == html_text(*self, opt_view(provider), opt_view(model)),
    {
        let mut out: Vec<char> = Vec::new();
        push_html_header(&mut out, self, provider, model);
        let ghost head = out@;
        let mut i: usize = 0;
        while i < self.turns.len()
            invariant
                i <= self.turns@.len(),
                out@ == head + turns_html(self.turns@, i as nat),
            decreases self.turns@.len() - i,
        {
            push_turn_html(&mut out, &self.turns[i]);
            assert(out@ =~= head + turns_html(self.turns@, (i + 1) as nat));
            i += 1;
        }
        let ghost body = out@;
        extend_str(&mut out, "    <div class=\"footer\">\n");
        extend_str(&mut out, "        Exported with Ember AI Agent Framework\n");
        extend_str(&mut out, "    </div>\n");
        extend_str(&mut out, "</body>\n</html>\n");
        assert(out@ =~= body + html_footer());
        string_from_chars(&out)
    }
}

// ─── Copies ──────────────────────────────────────────────────────────────────

/// An optional text by its view.
pub open spec fn opt_string_view(o: Option<String>) -> Option<Seq<char>> {
    match o {
        Some(t) => Some(t@),
        None => None,
    }
}

/// A tool call as its identifier, name and arguments.
pub open spec fn tool_call_view(c: ToolCall) -> (Seq<char>, Seq<char>, Seq<char>) {
    (c.id@, c.name@, c.arguments@)
}

/// A tool result as the call it answers and its output.
pub open spec fn tool_result_view(r: ToolResult) -> (Seq<char>, Seq<char>) {
    (r.tool_call_id@, r.output@)
}

/// The content of a turn, its texts by their views.
pub struct TurnView {
    /// Its identifier.
    pub id: Seq<char>,
    /// The user's message.
    pub user_message: Seq<char>,
    /// The assistant's response.
    pub assistant_response: Seq<char>,
    /// The tool calls.
    pub tool_calls: Seq<(Seq<char>, Seq<char>, Seq<char>)>,
    /// The tool results.
    pub tool_results: Seq<(Seq<char>, Seq<char>)>,
    /// When it started.
    pub started_at: i64,
    /// When it completed.
    pub completed_at: Option<i64>,
    /// Its token usage.
    pub tokens_used: Option<TokenUsage>,
    /// Its error.
    pub error: Option<Seq<char>>,
}

/// The content of a turn.
pub open spec fn turn_view(t: Turn) -> TurnView {
    TurnView {
        id: t.id@,
        user_message: t.user_message@,
        assistant_response: t.assistant_response@,
        tool_calls: t.tool_calls@.map_values(|c: ToolCall| tool_call_view(c)),
        tool_results: t.tool_results@.map_values(|r: ToolResult| tool_result_view(r)),
        started_at: t.started_at,
        completed_at: t.completed_at,
        tokens_used: t.tokens_used,
        error: opt_string_view(t.error),
    }
}

/// The content of a conversation, its texts by their views.
pub struct ConversationView {
    /// Its identifier.
    pub id: Seq<char>,
    /// Its title.
    pub title: Option<Seq<char>>,
    /// Its system prompt.
    pub system_prompt: Seq<char>,
    /// Its turns.
    pub turns: Seq<TurnView>,
    /// When it was created.
    pub created_at: i64,
    /// When it was last updated.
    pub updated_at: i64,
    /// Its metadata.
    pub metadata: Seq<(Seq<char>, Seq<char>)>,
}

/// The content of a conversation.
pub open spec fn conversation_view(c: Conversation) -> ConversationView {
    ConversationView {
        id: c.id.0@,
        title: opt_string_view(c.title),
        system_prompt: c.system_prompt@,
        turns: c.turns@.map_values(|t: Turn| turn_view(t)),
        created_at: c.created_at,
        updated_at: c.updated_at,
        metadata: c.metadata@.map_values(|m: (String, String)| (m.0@, m.1@)),
    }
}

fn copy_opt_text(o: &Option<String>) -> (r: Option<String>)
    ensures
        opt_string_view(r) == opt_string_view(*o),
{
    match o {
        Some(t) => Some(crate::text::owned(t.as_str())),
        None => None,
    }
}

impl ToolCall {
    /// A copy of the call.
    pub fn duplicate(&self) -> (r: ToolCall)
        ensures
            tool_call_view(r) == tool_call_view(*self),
    {
        ToolCall {
            id: crate::text::owned(self.id.as_str()),
            name: crate::text::owned(self.name.as_str()),
            arguments: crate::text::owned(self.arguments.as_str()),
        }
    }
}

impl ToolResult {
    /// A copy of the result.
    pub fn duplicate(&self) -> (r: ToolResult)
        ensures
            tool_result_view(r) == tool_result_view(*self),
    {
        ToolResult {
            tool_call_id: crate::text::owned(self.tool_call_id.as_str()),
            output: crate::text::owned(self.output.as_str()),
        }
    }
}

impl Turn {
    /// A copy of the turn.
    pub fn duplicate(&self) -> (r: Turn)
        ensures
            turn_view(r) == turn_view(*self),
    {
        let mut calls: Vec<ToolCall> = Vec::new();
        let mut i: usize = 0;
        while i < self.tool_calls.len()
            invariant
                i <= self.tool_calls@.len(),
                calls@.map_values(|c: ToolCall| tool_call_view(c)) == self.tool_calls@.take(
                    i as int,
                ).map_values(|c: ToolCall| tool_call_view(c)),
            decreases self.tool_calls@.len() - i,
        {
            let ghost c0 = calls@;
            calls.push(self.tool_calls[i].duplicate());
            assert(calls@.map_values(|c: ToolCall| tool_call_view(c)) =~= c0.map_values(
                |c: ToolCall| tool_call_view(c),
            ).push(tool_call_view(self.tool_calls@[i as int])));
            assert(self.tool_calls@.take(i + 1).map_values(|c: ToolCall| tool_call_view(c))
                =~= self.tool_calls@.take(i as int).map_values(|c: ToolCall| tool_call_view(c)).push(
                tool_call_view(self.tool_calls@[i as int]),
            ));
            i += 1;
        }
        assert(self.tool_calls@.take(self.tool_calls@.len() as int) =~= self.tool_calls@);
        let mut results: Vec<ToolResult> = Vec::new();
        let mut j: usize = 0;
        while j < self.tool_results.len()
            invariant
                j <= self.tool_results@.len(),
                results@.map_values(|r: ToolResult| tool_result_view(r)) == self.tool_results@.take(
                    j as int,
                ).map_values(|r: ToolResult| tool_result_view(r)),
            decreases self.tool_results@.len() - j,
        {
            let ghost r0 = results@;
            results.push(self.tool_results[j].duplicate());
            assert(results@.map_values(|r: ToolResult| tool_result_view(r)) =~= r0.map_values(
                |r: ToolResult| tool_result_view(r),
            ).push(tool_result_view(self.tool_results@[j as int])));
            assert(self.tool_results@.take(j + 1).map_values(|r: ToolResult| tool_result_view(r))
                =~= self.tool_results@.take(j as int).map_values(|r: ToolResult| tool_result_view(r)).push(
                tool_result_view(self.tool_results@[j as int]),
            ));
            j += 1;
        }
        assert(self.tool_results@.take(self.tool_results@.len() as int) =~= self.tool_results@);
        Turn {
            id: crate::text::owned(self.id.as_str()),
            user_message: crate::text::owned(self.user_message.as_str()),
            assistant_response: crate::text::owned(self.assistant_response.as_str()),
            tool_calls: calls,
            tool_results: results,
            started_at: self.started_at,
            completed_at: self.completed_at,
            tokens_used: self.tokens_used,
            error: copy_opt_text(&self.error),
        }
    }
}

impl Conversation {
    /// A copy of the conversation.
    pub fn duplicate(&self) -> (r: Conversation)
        ensures
            conversation_view(r) == conversation_view(*self),
    {
        let mut turns: Vec<Turn> = Vec::new();
        let mut i: usize = 0;
        while i < self.turns.len()
            invariant
                i <= self.turns@.len(),
                turns@.map_values(|t: Turn| turn_view(t)) == self.turns@.take(i as int).map_values(
                    |t: Turn| turn_view(t),
                ),
            decreases self.turns@.len() - i,
        {
            let ghost t0 = turns@;
            turns.push(self.turns[i].duplicate());
            assert(turns@.map_values(|t: Turn| turn_view(t)) =~= t0.map_values(|t: Turn| turn_view(t)).push(
                turn_view(self.turns@[i as int]),
            ));
            assert(self.turns@.take(i + 1).map_values(|t: Turn| turn_view(t)) =~= self.turns@.take(
                i as int,
            ).map_values(|t: Turn| turn_view(t)).push(turn_view(self.turns@[i as int])));
            i += 1;
        }
        assert(self.turns@.take(self.turns@.len() as int) =~= self.turns@);
        let mut metadata: Vec<(String, String)> = Vec::new();
        let mut j: usize = 0;
        while j < self.metadata.len()
            invariant
                j <= self.metadata@.len(),
                metadata@.map_values(|m: (String, String)| (m.0@, m.1@)) == self.metadata@.take(
                    j as int,
                ).map_values(|m: (String, String)| (m.0@, m.1@)),
            decreases self.metadata@.len() - j,
        {
            let ghost m0 = metadata@;
            let k = crate::text::owned(self.metadata[j].0.as_str());
            let v = crate::text::owned(self.metadata[j].1.as_str());
            metadata.push((k, v));
            assert(metadata@.map_values(|m: (String, String)| (m.0@, m.1@)) =~= m0.map_values(
                |m: (String, String)| (m.0@, m.1@),
            ).push((self.metadata@[j as int].0@, self.metadata@[j as int].1@)));
            assert(self.metadata@.take(j + 1).map_values(|m: (String, String)| (m.0@, m.1@))
                =~= self.metadata@.take(j as int).map_values(|m: (String, String)| (m.0@, m.1@)).push(
                (self.metadata@[j as int].0@, self.metadata@[j as int].1@),
            ));
            j += 1;
        }
        assert(self.metadata@.take(self.metadata@.len() as int) =~= self.metadata@);
        Conversation {
            id: ConversationId(crate::text::owned(self.id.0.as_str())),
            title: copy_opt_text(&self.title),
            system_prompt: crate::text::owned(self.system_prompt.as_str()),
            turns,
            created_at: self.created_at,
            updated_at: self.updated_at,
            metadata,
        }
    }
}

} // verus!
