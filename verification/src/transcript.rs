//! Conversation transcripts: the messages handed to a model for a
//! conversation, and the records of a conversation export.

use crate::analyzer::opt_view;
use crate::context::Role;
use crate::conversation::{Conversation, ToolCall, ToolResult, Turn};
use crate::text::owned;
use vstd::prelude::*;

verus! {

/// The view of a tool call: its ID, name and arguments.
pub open spec fn call_view(c: ToolCall) -> (Seq<char>, Seq<char>, Seq<char>) {
    (c.id@, c.name@, c.arguments@)
}

/// A message of a model conversation: its role and content, the tool
/// calls an assistant message carries, and for a tool's answer the call it
/// answers and the tool's name.
#[derive(Debug)]
pub struct ModelMessage {
    /// Role.
    pub role: Role,
    /// Content.
    pub content: String,
    /// Tool calls requested by an assistant message.
    pub tool_calls: Vec<ToolCall>,
    /// The call a tool message answers.
    pub tool_call_id: Option<String>,
    /// The tool's name, on a tool message.
    pub name: Option<String>,
}

/// The view of a model message: role, content, tool calls, answered call
/// and tool name.
pub type ModelMessageView = (
    Role,
    Seq<char>,
    Seq<(Seq<char>, Seq<char>, Seq<char>)>,
    Option<Seq<char>>,
    Option<Seq<char>>,
);

impl View for ModelMessage {
    type V = ModelMessageView;

    open spec fn view(&self) -> ModelMessageView {
        (
            self.role,
            self.content@,
            self.tool_calls@.map_values(|c: ToolCall| call_view(c)),
            opt_view(self.tool_call_id),
            opt_view(self.name),
        )
    }
}

/// A message with a role and content and nothing else.
pub open spec fn plain_message(role: Role, content: Seq<char>) -> ModelMessageView {
    (role, content, Seq::empty(), None, None)
}

/// The messages for the first `n` tool calls of a turn paired with their
/// results: for each, an empty assistant message carrying the call, then
/// the tool's answer.
pub open spec fn call_messages(calls: Seq<ToolCall>, results: Seq<ToolResult>, n: nat) -> Seq<
    ModelMessageView,
>
    decreases n,
{
    if n == 0 {
        Seq::empty()
    } else {
        let c = calls[n - 1];
        call_messages(calls, results, (n - 1) as nat) + seq![
            (Role::Assistant, Seq::empty(), seq![call_view(c)], None, None),
            (Role::Tool, results[n - 1].output@, Seq::empty(), Some(c.id@), Some(c.name@)),
        ]
    }
}

/// How many tool calls of a turn have a result beside them.
pub open spec fn paired_calls(t: Turn) -> nat {
    if t.tool_calls@.len() <= t.tool_results@.len() {
        t.tool_calls@.len()
    } else {
        t.tool_results@.len()
    }
}

/// The messages of one turn: the user's message, the paired tool calls
/// and answers, and the assistant's response when it is not empty.
pub open spec fn turn_messages(t: Turn) -> Seq<ModelMessageView> {
    seq![plain_message(Role::User, t.user_message@)] + call_messages(
        t.tool_calls@,
        t.tool_results@,
        paired_calls(t),
    ) + if t.assistant_response@.len() > 0 {
        seq![plain_message(Role::Assistant, t.assistant_response@)]
    } else {
        Seq::empty()
    }
}

/// The messages of turns, in order.
pub open spec fn turns_messages(ts: Seq<Turn>) -> Seq<ModelMessageView>
    decreases ts.len(),
{
    if ts.len() == 0 {
        Seq::empty()
    } else {
        turns_messages(ts.drop_last()) + turn_messages(ts.last())
    }
}

/// The messages of a conversation: the system prompt, then each turn's.
pub open spec fn conversation_messages(c: Conversation) -> Seq<ModelMessageView> {
    seq![plain_message(Role::System, c.system_prompt@)] + turns_messages(c.turns@)
}

/// The views of model messages.
pub open spec fn model_views(ms: Seq<ModelMessage>) -> Seq<ModelMessageView> {
    ms.map_values(|m: ModelMessage| m@)
}

/// A copy of a tool call.
fn copy_call(c: &ToolCall) -> (r: ToolCall)
    ensures
        call_view(r) == call_view(*c),
{
    ToolCall {
        id: owned(c.id.as_str()),
        name: owned(c.name.as_str()),
        arguments: owned(c.arguments.as_str()),
    }
}

/// A message with a role and content and nothing else.
fn plain(role: Role, content: &str) -> (r: ModelMessage)
    ensures
        r@ == plain_message(role, content@),
{
    let r = ModelMessage {
        role,
        content: owned(content),
        tool_calls: Vec::new(),
        tool_call_id: None,
        name: None,
    };
    assert(r@.2 =~= Seq::<(Seq<char>, Seq<char>, Seq<char>)>::empty());
    r
}

/// Appends the messages of one turn.
fn push_turn_messages(out: &mut Vec<ModelMessage>, t: &Turn)
    ensures
        model_views(final(out)@) == model_views(old(out)@) + turn_messages(*t),
{
    let ghost start = model_views(out@);
    out.push(plain(Role::User, t.user_message.as_str()));
    assert(model_views(out@) =~= start + seq![plain_message(Role::User, t.user_message@)]);
    let n: usize = if t.tool_calls.len() <= t.tool_results.len() {
        t.tool_calls.len()
    } else {
        t.tool_results.len()
    };
    let mut i: usize = 0;
    while i < n
        invariant
            i <= n,
            n == paired_calls(*t),
            n <= t.tool_calls@.len(),
            n <= t.tool_results@.len(),
            model_views(out@) == start + seq![plain_message(Role::User, t.user_message@)]
                + call_messages(t.tool_calls@, t.tool_results@, i as nat),
        decreases n - i,
    {
        let c = &t.tool_calls[i];
        let ghost before = model_views(out@);
        let call_msg = ModelMessage {
            role: Role::Assistant,
            content: String::new(),
            tool_calls: vec![copy_call(c)],
            tool_call_id: None,
            name: None,
        };
        assert(call_msg@.2 =~= seq![call_view(*c)]);
        out.push(call_msg);
        let answer = ModelMessage {
            role: Role::Tool,
            content: owned(t.tool_results[i].output.as_str()),
            tool_calls: Vec::new(),
            tool_call_id: Some(owned(c.id.as_str())),
            name: Some(owned(c.name.as_str())),
        };
        assert(answer@.2 =~= Seq::<(Seq<char>, Seq<char>, Seq<char>)>::empty());
        out.push(answer);
        assert(model_views(out@) =~= before + seq![
            (Role::Assistant, Seq::empty(), seq![call_view(*c)], None, None),
            (Role::Tool, t.tool_results@[i as int].output@, Seq::empty(), Some(c.id@), Some(c.name@)),
        ]);
        i += 1;
    }
    if t.assistant_response.as_str().unicode_len() > 0 {
        let ghost before = model_views(out@);
        out.push(plain(Role::Assistant, t.assistant_response.as_str()));
        assert(model_views(out@) =~= before + seq![
            plain_message(Role::Assistant, t.assistant_response@),
        ]);
    }
    assert(model_views(out@) =~= start + turn_messages(*t));
}

impl Conversation {
    /// The messages to hand a model for this conversation: the system
    /// prompt, then for each turn the user's message, each tool call that
    /// has a result (an empty assistant message carrying the call, then the
    /// tool's answer), and the assistant's response when it is not empty.
    pub fn to_messages(&self) -> (r: Vec<ModelMessage>)
        ensures
            model_views(r@) == conversation_messages(*self),
    {
        let mut out: Vec<ModelMessage> = Vec::new();
        out.push(plain(Role::System, self.system_prompt.as_str()));
        assert(model_views(out@) =~= seq![plain_message(Role::System, self.system_prompt@)]);
        let mut i: usize = 0;
        while i < self.turns.len()
            invariant
                i <= self.turns@.len(),
                model_views(out@) == seq![plain_message(Role::System, self.system_prompt@)]
                    + turns_messages(self.turns@.take(i as int)),
            decreases self.turns.len() - i,
        {
            proof {
                assert(self.turns@.take(i + 1).drop_last() =~= self.turns@.take(i as int));
            }
            push_turn_messages(&mut out, &self.turns[i]);
            proof {
                let ghost s = seq![plain_message(Role::System, self.system_prompt@)];
                assert(turns_messages(self.turns@.take(i + 1)) == turns_messages(
                    self.turns@.take(i as int),
                ) + turn_messages(self.turns@[i as int]));
            }
            i += 1;
        }
        assert(self.turns@.take(self.turns.len() as int) =~= self.turns@);
        out
    }
}

/// A message of an exported conversation.
#[derive(Debug)]
pub struct ExportMessage {
    /// Role: user, assistant, or system.
    pub role: String,
    /// Message content.
    pub content: String,
    /// When it was written, in milliseconds since the Unix epoch.
    pub timestamp: i64,
}

impl View for ExportMessage {
    type V = (Seq<char>, Seq<char>, i64);

    open spec fn view(&self) -> (Seq<char>, Seq<char>, i64) {
        (self.role@, self.content@, self.timestamp)
    }
}

/// A tool call of an exported conversation.
#[derive(Debug)]
pub struct ExportToolCall {
    /// Tool name.
    pub name: String,
    /// Tool arguments, as JSON text.
    pub arguments: String,
    /// The tool's result.
    pub result: Option<String>,
    /// When the call was made, in milliseconds since the Unix epoch.
    pub timestamp: i64,
}

impl View for ExportToolCall {
    type V = (Seq<char>, Seq<char>, Option<Seq<char>>, i64);

    open spec fn view(&self) -> (Seq<char>, Seq<char>, Option<Seq<char>>, i64) {
        (self.name@, self.arguments@, opt_view(self.result), self.timestamp)
    }
}

/// The metadata of an exported conversation.
#[derive(Debug)]
pub struct ExportMetadata {
    /// When the conversation was exported, in milliseconds since the epoch.
    pub exported_at: i64,
    /// When the conversation was created, in milliseconds since the epoch.
    pub created_at: i64,
    /// Conversation ID.
    pub conversation_id: String,
    /// Provider used, if known.
    pub provider: Option<String>,
    /// Model used, if known.
    pub model: Option<String>,
    /// Conversation title.
    pub title: Option<String>,
    /// Total tokens used.
    pub total_tokens: u32,
    /// Number of turns.
    pub turn_count: usize,
}

/// An exported conversation: its metadata, its messages and the tool calls
/// made in it.
#[derive(Debug)]
pub struct ConversationExport {
    /// Export metadata.
    pub metadata: ExportMetadata,
    /// All messages in the conversation.
    pub messages: Vec<ExportMessage>,
    /// Tool calls made during the conversation.
    pub tool_calls: Vec<ExportToolCall>,
}

/// When a turn's response was given: when the turn completed, or else when
/// it started.
pub open spec fn answered_at(t: Turn) -> i64 {
    match t.completed_at {
        Some(c) => c,
        None => t.started_at,
    }
}

/// The exported messages of a turn: the user's message, then the
/// assistant's response when it is not empty.
pub open spec fn turn_export_messages(t: Turn) -> Seq<(Seq<char>, Seq<char>, i64)> {
    seq![("user"@, t.user_message@, t.started_at)] + if t.assistant_response@.len() > 0 {
        seq![("assistant"@, t.assistant_response@, answered_at(t))]
    } else {
        Seq::empty()
    }
}

/// The exported tool calls of a turn: each call that has a result beside
/// it, with that result, stamped with the turn's start.
pub open spec fn turn_export_calls(t: Turn) -> Seq<(Seq<char>, Seq<char>, Option<Seq<char>>, i64)> {
    Seq::new(
        paired_calls(t),
        |i: int|
            (
                t.tool_calls@[i].name@,
                t.tool_calls@[i].arguments@,
                Some(t.tool_results@[i].output@),
                t.started_at,
            ),
    )
}

/// The exported messages of turns, in order.
pub open spec fn turns_export_messages(ts: Seq<Turn>) -> Seq<(Seq<char>, Seq<char>, i64)>
    decreases ts.len(),
{
    if ts.len() == 0 {
        Seq::empty()
    } else {
        turns_export_messages(ts.drop_last()) + turn_export_messages(ts.last())
    }
}

/// The exported tool calls of turns, in order.
pub open spec fn turns_export_calls(ts: Seq<Turn>) -> Seq<
    (Seq<char>, Seq<char>, Option<Seq<char>>, i64),
>
    decreases ts.len(),
{
    if ts.len() == 0 {
        Seq::empty()
    } else {
        turns_export_calls(ts.drop_last()) + turn_export_calls(ts.last())
    }
}

/// Whether `e` is the export of `c` with the given provider and model,
/// made at `exported_at`.
pub open spec fn is_export_of(
    e: ConversationExport,
    c: Conversation,
    provider: Option<Seq<char>>,
    model: Option<Seq<char>>,
    exported_at: i64,
) -> bool {
    &&& e.metadata.exported_at == exported_at
    &&& e.metadata.created_at == c.created_at
    &&& e.metadata.conversation_id@ == c.id.0@
    &&& opt_view(e.metadata.provider) == provider
    &&& opt_view(e.metadata.model) == model
    &&& opt_view(e.metadata.title) == opt_view(c.title)
    &&& e.metadata.total_tokens == crate::conversation::usage_sum(c.turns@).0
        + crate::conversation::usage_sum(c.turns@).1
    &&& e.metadata.turn_count == c.turns@.len()
    &&& e.messages@.map_values(|m: ExportMessage| m@) == seq![("system"@, c.system_prompt@, c.created_at)]
        + turns_export_messages(c.turns@)
    &&& e.tool_calls@.map_values(|t: ExportToolCall| t@) == turns_export_calls(c.turns@)
}

/// A copy of an optional text.
fn owned_opt(o: Option<&str>) -> (r: Option<String>)
    ensures
        opt_view(r) == crate::conversation::opt_view(o),
{
    match o {
        Some(s) => Some(owned(s)),
        None => None,
    }
}

/// A copy of an optional string.
fn copy_opt(o: &Option<String>) -> (r: Option<String>)
    ensures
        opt_view(r) == opt_view(*o),
{
    match o {
        Some(s) => Some(owned(s.as_str())),
        None => None,
    }
}

/// Appends the exported messages and tool calls of one turn.
fn push_turn_export(messages: &mut Vec<ExportMessage>, calls: &mut Vec<ExportToolCall>, t: &Turn)
    ensures
        final(messages)@.map_values(|m: ExportMessage| m@) == old(messages)@.map_values(
            |m: ExportMessage| m@,
        ) + turn_export_messages(*t),
        final(calls)@.map_values(|c: ExportToolCall| c@) == old(calls)@.map_values(
            |c: ExportToolCall| c@,
        ) + turn_export_calls(*t),
{
    let ghost m0 = messages@.map_values(|m: ExportMessage| m@);
    let ghost c0 = calls@.map_values(|c: ExportToolCall| c@);
    messages.push(
        ExportMessage {
            role: owned("user"),
            content: owned(t.user_message.as_str()),
            timestamp: t.started_at,
        },
    );
    let n: usize = if t.tool_calls.len() <= t.tool_results.len() {
        t.tool_calls.len()
    } else {
        t.tool_results.len()
    };
    let mut i: usize = 0;
    while i < n
        invariant
            i <= n,
            n == paired_calls(*t),
            n <= t.tool_calls@.len(),
            n <= t.tool_results@.len(),
            calls@.map_values(|c: ExportToolCall| c@) == c0 + turn_export_calls(*t).take(i as int),
        decreases n - i,
    {
        let c = &t.tool_calls[i];
        let item = ExportToolCall {
            name: owned(c.name.as_str()),
            arguments: owned(c.arguments.as_str()),
            result: Some(owned(t.tool_results[i].output.as_str())),
            timestamp: t.started_at,
        };
        assert(item@ == turn_export_calls(*t)[i as int]);
        let ghost before = calls@;
        calls.push(item);
        assert(calls@.map_values(|c: ExportToolCall| c@) =~= before.map_values(
            |c: ExportToolCall| c@,
        ).push(item@));
        assert(turn_export_calls(*t).take(i + 1) =~= turn_export_calls(*t).take(i as int).push(
            turn_export_calls(*t)[i as int],
        ));
        assert(calls@.map_values(|c: ExportToolCall| c@) =~= c0 + turn_export_calls(*t).take(
            i + 1,
        ));
        i += 1;
    }
    assert(turn_export_calls(*t).take(n as int) =~= turn_export_calls(*t));
    if t.assistant_response.as_str().unicode_len() > 0 {
        let at = match t.completed_at {
            Some(c) => c,
            None => t.started_at,
        };
        messages.push(
            ExportMessage {
                role: owned("assistant"),
                content: owned(t.assistant_response.as_str()),
                timestamp: at,
            },
        );
    }
    assert(messages@.map_values(|m: ExportMessage| m@) =~= m0 + turn_export_messages(*t));
}

impl ConversationExport {
    /// The export of a conversation, made at `exported_at` (milliseconds
    /// since the Unix epoch): its metadata, the system prompt and each
    /// turn's messages, and each tool call that has a result.
    pub fn from_conversation_at(
        conv: &Conversation,
        provider: Option<&str>,
        model: Option<&str>,
        exported_at: i64,
    ) -> (r: ConversationExport)
        requires
            crate::conversation::usage_sum(conv.turns@).0 + crate::conversation::usage_sum(
                conv.turns@,
            ).1 <= u32::MAX,
        ensures
            is_export_of(
                r,
                *conv,
                crate::conversation::opt_view(provider),
                crate::conversation::opt_view(model),
                exported_at,
            ),
    {
        let mut messages: Vec<ExportMessage> = Vec::new();
        let mut calls: Vec<ExportToolCall> = Vec::new();
        messages.push(
            ExportMessage {
                role: owned("system"),
                content: owned(conv.system_prompt.as_str()),
                timestamp: conv.created_at,
            },
        );
        let ghost first = seq![("system"@, conv.system_prompt@, conv.created_at)];
        assert(messages@.map_values(|m: ExportMessage| m@) =~= first);
        let mut i: usize = 0;
        while i < conv.turns.len()
            invariant
                i <= conv.turns@.len(),
                messages@.map_values(|m: ExportMessage| m@) == first + turns_export_messages(
                    conv.turns@.take(i as int),
                ),
                calls@.map_values(|c: ExportToolCall| c@) == turns_export_calls(
                    conv.turns@.take(i as int),
                ),
            decreases conv.turns.len() - i,
        {
            proof {
                assert(conv.turns@.take(i + 1).drop_last() =~= conv.turns@.take(i as int));
            }
            push_turn_export(&mut messages, &mut calls, &conv.turns[i]);
            i += 1;
        }
        assert(conv.turns@.take(conv.turns.len() as int) =~= conv.turns@);
        let total = conv.total_tokens();
        ConversationExport {
            metadata: ExportMetadata {
                exported_at,
                created_at: conv.created_at,
                conversation_id: owned(conv.id.0.as_str()),
                provider: owned_opt(provider),
                model: owned_opt(model),
                title: copy_opt(&conv.title),
                total_tokens: total.total,
                turn_count: conv.turns.len(),
            },
            messages,
            tool_calls: calls,
        }
    }

    /// The export of a conversation, stamped with the current time.
    pub fn from_conversation(conv: &Conversation, provider: Option<&str>, model: Option<&str>) -> (r:
        ConversationExport)
        requires
            crate::conversation::usage_sum(conv.turns@).0 + crate::conversation::usage_sum(
                conv.turns@,
            ).1 <= u32::MAX,
        ensures
            crate::clock::in_clock_range(r.metadata.exported_at as int),
            is_export_of(
                r,
                *conv,
                crate::conversation::opt_view(provider),
                crate::conversation::opt_view(model),
                r.metadata.exported_at,
            ),
    {
        let now = crate::clock::now_millis();
        ConversationExport::from_conversation_at(conv, provider, model, now)
    }
}

} // verus!
