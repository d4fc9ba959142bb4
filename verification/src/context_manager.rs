//! Context window management: token accounting for the messages sent to a
//! model, and the pruning strategies that keep them within the window.
//!
//! Priority weights are kept in thousandths and priorities are compared
//! exactly as fractions.

use crate::text::{chars_of, extend_str, owned, push_dec, string_from_chars};
use vstd::prelude::*;

verus! {

/// Pruning strategy.
#[derive(Debug, Clone, Copy, PartialEq, Eq, Structural)]
pub enum PruningStrategy {
    /// Remove the oldest messages.
    SlidingWindow,
    /// Remove the lowest-priority messages.
    PriorityBased,
    /// Summarize old messages.
    Summarize,
    /// Summarize long contexts, otherwise go by priority.
    Hybrid,
}

/// How tokens are estimated from text.
#[derive(Debug, Clone, Copy, PartialEq, Eq, Structural)]
pub enum TokenEstimation {
    /// Four bytes to a token.
    Approximate,
    /// As `Approximate`.
    Tiktoken,
    /// A given number of bytes to a token, in thousandths.
    Custom {
        /// Bytes per token, in thousandths.
        chars_per_token_milli: u64,
    },
}

/// Priority weights for message retention, in thousandths.
#[derive(Debug, Clone, Copy, PartialEq, Eq, Structural)]
pub struct PriorityWeights {
    /// Weight of user messages.
    pub user_message: u64,
    /// Weight of assistant messages.
    pub assistant_message: u64,
    /// Weight of tool calls.
    pub tool_call: u64,
    /// Weight of tool results.
    pub tool_result: u64,
    /// Weight of system messages.
    pub system_message: u64,
    /// How fast priority falls with age.
    pub recency_multiplier: u64,
}

impl Default for PriorityWeights {
    fn default() -> (r: PriorityWeights)
        ensures
            r == (PriorityWeights {
                user_message: 1000,
                assistant_message: 800,
                tool_call: 600,
                tool_result: 500,
                system_message: 1500,
                recency_multiplier: 100,
            }),
    {
        PriorityWeights {
            user_message: 1000,
            assistant_message: 800,
            tool_call: 600,
            tool_result: 500,
            system_message: 1500,
            recency_multiplier: 100,
        }
    }
}

/// Configuration for context management.
#[derive(Debug, Clone, Copy, PartialEq, Eq, Structural)]
pub struct ContextConfig {
    /// Size of the context window, in tokens.
    pub max_tokens: usize,
    /// Tokens kept for the response.
    pub reserved_response_tokens: usize,
    /// Tokens kept for the system prompt.
    pub reserved_system_tokens: usize,
    /// Pruning strategy.
    pub pruning_strategy: PruningStrategy,
    /// Whether old messages may be summarized.
    pub enable_summarization: bool,
    /// How many of the most recent messages are never pruned.
    pub preserve_recent_count: usize,
    /// Priority weights.
    pub priority_weights: PriorityWeights,
    /// Token estimation.
    pub token_estimation: TokenEstimation,
}

/// The largest weight, in thousandths, that priorities are computed with.
pub const MAX_WEIGHT: u64 = 1_000_000;

impl ContextConfig {
    /// Whether the weights lie within the range priorities are computed in.
    pub open spec fn weights_in_range(&self) -> bool {
        let w = self.priority_weights;
        w.user_message <= MAX_WEIGHT && w.assistant_message <= MAX_WEIGHT && w.tool_call
            <= MAX_WEIGHT && w.system_message <= MAX_WEIGHT && w.recency_multiplier <= MAX_WEIGHT
    }
}

impl Default for ContextConfig {
    fn default() -> (r: ContextConfig)
        ensures
            r.max_tokens == 128_000,
            r.reserved_response_tokens == 4096,
            r.reserved_system_tokens == 2000,
            r.pruning_strategy == PruningStrategy::SlidingWindow,
            r.enable_summarization,
            r.preserve_recent_count == 4,
            r.priority_weights.user_message == 1000,
            r.priority_weights.assistant_message == 800,
            r.priority_weights.tool_call == 600,
            r.priority_weights.tool_result == 500,
            r.priority_weights.system_message == 1500,
            r.priority_weights.recency_multiplier == 100,
            r.token_estimation == TokenEstimation::Approximate,
            r.weights_in_range(),
    {
        ContextConfig {
            max_tokens: 128_000,
            reserved_response_tokens: 4096,
            reserved_system_tokens: 2000,
            pruning_strategy: PruningStrategy::SlidingWindow,
            enable_summarization: true,
            preserve_recent_count: 4,
            priority_weights: PriorityWeights::default(),
            token_estimation: TokenEstimation::Approximate,
        }
    }
}

/// Message role.
#[derive(Debug, Clone, Copy, PartialEq, Eq, Structural)]
pub enum MessageRole {
    /// System message.
    System,
    /// User message.
    User,
    /// Assistant message.
    Assistant,
    /// Tool message.
    Tool,
}

/// Additional message metadata.
#[derive(Debug, Clone)]
pub struct MessageMetadata {
    /// Tool name, for tool messages.
    pub tool_name: Option<String>,
    /// Whether this message summarizes earlier ones.
    pub is_summary: bool,
    /// How many messages a summary stands for.
    pub summarized_count: Option<usize>,
    /// Tags.
    pub tags: Vec<String>,
}

impl Default for MessageMetadata {
    fn default() -> (r: MessageMetadata)
        ensures
            r.tool_name is None,
            !r.is_summary,
            r.summarized_count is None,
            r.tags@.len() == 0,
    {
        MessageMetadata { tool_name: None, is_summary: false, summarized_count: None, tags: Vec::new() }
    }
}

/// A message in the context.
#[derive(Debug, Clone)]
pub struct ContextMessage {
    /// Role.
    pub role: MessageRole,
    /// Content.
    pub content: String,
    /// Estimated tokens.
    pub tokens: usize,
    /// Position in the order messages were added.
    pub index: usize,
    /// Whether the message is never pruned.
    pub pinned: bool,
    /// When the message was added, in seconds since the Unix epoch.
    pub timestamp: u64,
    /// Metadata.
    pub metadata: Option<MessageMetadata>,
}

/// Token counts by role.
#[derive(Debug, Clone, Copy, PartialEq, Eq, Structural)]
pub struct TokenCount {
    /// Tokens of all messages.
    pub total: usize,
    /// Tokens of the system prompt and system messages.
    pub system: usize,
    /// Tokens of user messages.
    pub user: usize,
    /// Tokens of assistant messages.
    pub assistant: usize,
    /// Tokens of tool messages.
    pub tool: usize,
}

impl Default for TokenCount {
    fn default() -> (r: TokenCount)
        ensures
            r == (TokenCount { total: 0, system: 0, user: 0, assistant: 0, tool: 0 }),
    {
        TokenCount { total: 0, system: 0, user: 0, assistant: 0, tool: 0 }
    }
}

/// `a - b`, or zero.
pub open spec fn sat_sub(a: int, b: int) -> int {
    if a > b {
        a - b
    } else {
        0
    }
}

/// `a + b`, or the largest `usize`.
pub open spec fn sat_add(a: int, b: int) -> int {
    if a + b > usize::MAX {
        usize::MAX as int
    } else {
        a + b
    }
}

/// The tokens left for messages in a window.
pub open spec fn message_budget(config: ContextConfig) -> int {
    sat_sub(
        sat_sub(config.max_tokens as int, config.reserved_response_tokens as int),
        config.reserved_system_tokens as int,
    )
}

impl TokenCount {
    /// The tokens still available for messages.
    pub fn available(&self, config: &ContextConfig) -> (r: usize)
        ensures
            r == sat_sub(message_budget(*config), self.total as int),
    {
        let max_message_tokens = config.max_tokens.saturating_sub(
            config.reserved_response_tokens,
        ).saturating_sub(config.reserved_system_tokens);
        max_message_tokens.saturating_sub(self.total)
    }
}

/// Context management statistics.
#[derive(Debug, Clone, Copy, PartialEq, Eq, Structural)]
pub struct ContextStats {
    /// Messages added.
    pub messages_added: usize,
    /// Messages pruned.
    pub messages_pruned: usize,
    /// Summaries made.
    pub summaries_generated: usize,
    /// Tokens added.
    pub tokens_processed: usize,
    /// Tokens saved by pruning.
    pub tokens_saved: usize,
}

impl Default for ContextStats {
    fn default() -> (r: ContextStats)
        ensures
            r == (ContextStats {
                messages_added: 0,
                messages_pruned: 0,
                summaries_generated: 0,
                tokens_processed: 0,
                tokens_saved: 0,
            }),
    {
        ContextStats {
            messages_added: 0,
            messages_pruned: 0,
            summaries_generated: 0,
            tokens_processed: 0,
            tokens_saved: 0,
        }
    }
}

/// A message as sent to the model.
#[derive(Debug, Clone)]
pub struct FormattedMessage {
    /// Role name.
    pub role: String,
    /// Content.
    pub content: String,
}

// ─── The model of the manager's state ────────────────────────────────────────

/// The view of message metadata.
pub struct MetaView {
    /// Tool name.
    pub tool_name: Option<Seq<char>>,
    /// Whether the message is a summary.
    pub is_summary: bool,
    /// How many messages a summary stands for.
    pub summarized_count: Option<usize>,
    /// Tags.
    pub tags: Seq<Seq<char>>,
}

/// The view of a context message.
pub struct MsgView {
    /// Role.
    pub role: MessageRole,
    /// Content.
    pub content: Seq<char>,
    /// Tokens.
    pub tokens: usize,
    /// Index.
    pub index: usize,
    /// Whether it is pinned.
    pub pinned: bool,
    /// Timestamp.
    pub timestamp: u64,
    /// Metadata.
    pub metadata: Option<MetaView>,
}

/// The view of metadata.
pub open spec fn meta_view(m: MessageMetadata) -> MetaView {
    MetaView {
        tool_name: match m.tool_name {
            Some(t) => Some(t@),
            None => None,
        },
        is_summary: m.is_summary,
        summarized_count: m.summarized_count,
        tags: crate::text::string_views(m.tags@),
    }
}

/// The view of a message.
pub open spec fn msg_view(m: ContextMessage) -> MsgView {
    MsgView {
        role: m.role,
        content: m.content@,
        tokens: m.tokens,
        index: m.index,
        pinned: m.pinned,
        timestamp: m.timestamp,
        metadata: match m.metadata {
            Some(md) => Some(meta_view(md)),
            None => None,
        },
    }
}

/// The views of messages.
pub open spec fn msg_views(ms: Seq<ContextMessage>) -> Seq<MsgView> {
    ms.map_values(|m: ContextMessage| msg_view(m))
}

/// The state pruning works on: messages, token counts and statistics.
pub struct CtxModel {
    /// Messages, oldest first.
    pub messages: Seq<MsgView>,
    /// Token counts.
    pub tokens: TokenCount,
    /// Statistics.
    pub stats: ContextStats,
}

/// Estimated tokens of a text of `len` bytes.
pub open spec fn estimate(est: TokenEstimation, len: int) -> int {
    match est {
        TokenEstimation::Custom { chars_per_token_milli: c } => if c == 0 {
            if len == 0 {
                0
            } else {
                usize::MAX as int
            }
        } else {
            let t = (len * 1000 + c - 1) / (c as int);
            if t > usize::MAX {
                usize::MAX as int
            } else {
                t
            }
        },
        _ => (len + 3) / 4,
    }
}

/// The byte length of a text, as `str::len` gives it.
pub open spec fn byte_len(s: Seq<char>) -> int {
    vstd::utf8::encode_utf8(s).len() as usize as int
}

/// Token counts with a message's tokens taken off its role and the total.
pub open spec fn count_removed(tc: TokenCount, m: MsgView) -> TokenCount {
    let t = m.tokens as int;
    TokenCount {
        total: sat_sub(tc.total as int, t) as usize,
        system: if m.role == MessageRole::System {
            sat_sub(tc.system as int, t) as usize
        } else {
            tc.system
        },
        user: if m.role == MessageRole::User {
            sat_sub(tc.user as int, t) as usize
        } else {
            tc.user
        },
        assistant: if m.role == MessageRole::Assistant {
            sat_sub(tc.assistant as int, t) as usize
        } else {
            tc.assistant
        },
        tool: if m.role == MessageRole::Tool {
            sat_sub(tc.tool as int, t) as usize
        } else {
            tc.tool
        },
    }
}

/// Token counts with a message's tokens added to its role and the total.
pub open spec fn count_added(tc: TokenCount, role: MessageRole, t: int) -> TokenCount {
    TokenCount {
        total: sat_add(tc.total as int, t) as usize,
        system: if role == MessageRole::System {
            sat_add(tc.system as int, t) as usize
        } else {
            tc.system
        },
        user: if role == MessageRole::User {
            sat_add(tc.user as int, t) as usize
        } else {
            tc.user
        },
        assistant: if role == MessageRole::Assistant {
            sat_add(tc.assistant as int, t) as usize
        } else {
            tc.assistant
        },
        tool: if role == MessageRole::Tool {
            sat_add(tc.tool as int, t) as usize
        } else {
            tc.tool
        },
    }
}

/// Token counts with several messages taken off, oldest first.
pub open spec fn counts_removed(tc: TokenCount, ms: Seq<MsgView>) -> TokenCount
    decreases ms.len(),
{
    if ms.len() == 0 {
        tc
    } else {
        count_removed(counts_removed(tc, ms.drop_last()), ms.last())
    }
}

/// Whether the messages have reached the budget.
pub open spec fn over_budget(m: CtxModel, config: ContextConfig) -> bool {
    m.tokens.total >= message_budget(config)
}

/// The state after removing the message at `i` as pruned.
pub open spec fn prune_at(m: CtxModel, i: int) -> CtxModel {
    let msg = m.messages[i];
    CtxModel {
        messages: m.messages.remove(i),
        tokens: count_removed(m.tokens, msg),
        stats: ContextStats {
            messages_pruned: sat_add(m.stats.messages_pruned as int, 1) as usize,
            tokens_saved: sat_add(m.stats.tokens_saved as int, msg.tokens as int) as usize,
            ..m.stats
        },
    }
}

/// The number of messages pruning may look at: all but the preserved
/// recent ones.
pub open spec fn prunable_prefix(m: CtxModel, config: ContextConfig) -> int {
    sat_sub(m.messages.len() as int, config.preserve_recent_count as int)
}

/// The first unpinned message among the first `limit`.
pub open spec fn first_unpinned(ms: Seq<MsgView>, limit: int) -> Option<int>
    decreases limit,
{
    if limit <= 0 {
        None
    } else {
        match first_unpinned(ms, limit - 1) {
            Some(i) => Some(i),
            None => if !ms[limit - 1].pinned {
                Some(limit - 1)
            } else {
                None
            },
        }
    }
}

/// Sliding-window pruning: the oldest unpinned message outside the
/// preserved recent ones goes.
pub open spec fn prune_sliding(m: CtxModel, config: ContextConfig) -> CtxModel {
    if m.messages.len() <= config.preserve_recent_count {
        m
    } else {
        match first_unpinned(m.messages, prunable_prefix(m, config)) {
            Some(i) => prune_at(m, i),
            None => m,
        }
    }
}

/// The weight of a role.
pub open spec fn role_weight(role: MessageRole, w: PriorityWeights) -> int {
    match role {
        MessageRole::System => w.system_message as int,
        MessageRole::User => w.user_message as int,
        MessageRole::Assistant => w.assistant_message as int,
        MessageRole::Tool => w.tool_call as int,
    }
}

/// Whether message `a` has a strictly lower priority than `b` when
/// `added` messages have been added: a message's priority is its role's
/// weight divided by `1 + age * recency_multiplier`.
pub open spec fn lower_priority(a: MsgView, b: MsgView, added: int, w: PriorityWeights) -> bool {
    let ra = sat_sub(added, a.index as int);
    let rb = sat_sub(added, b.index as int);
    role_weight(a.role, w) * (1000 + rb * w.recency_multiplier) < role_weight(b.role, w) * (1000
        + ra * w.recency_multiplier)
}

/// The lowest-priority unpinned message among the first `limit`, the
/// earliest on ties.
pub open spec fn lowest_unpinned(ms: Seq<MsgView>, limit: int, added: int, w: PriorityWeights) -> Option<
    int,
>
    decreases limit,
{
    if limit <= 0 {
        None
    } else {
        let j = limit - 1;
        match lowest_unpinned(ms, j, added, w) {
            Some(i) => if !ms[j].pinned && lower_priority(ms[j], ms[i], added, w) {
                Some(j)
            } else {
                Some(i)
            },
            None => if !ms[j].pinned {
                Some(j)
            } else {
                None
            },
        }
    }
}

/// Priority pruning: the lowest-priority unpinned message outside the
/// preserved recent ones goes.
pub open spec fn prune_priority(m: CtxModel, config: ContextConfig) -> CtxModel {
    if m.messages.len() <= config.preserve_recent_count {
        m
    } else {
        match lowest_unpinned(
            m.messages,
            prunable_prefix(m, config),
            m.stats.messages_added as int,
            config.priority_weights,
        ) {
            Some(i) => prune_at(m, i),
            None => m,
        }
    }
}

/// How many of the messages have the role.
pub open spec fn count_role(ms: Seq<MsgView>, role: MessageRole) -> nat
    decreases ms.len(),
{
    if ms.len() == 0 {
        0
    } else {
        count_role(ms.drop_last(), role) + if ms.last().role == role {
            1nat
        } else {
            0nat
        }
    }
}

/// The tokens of the messages.
pub open spec fn sum_tokens(ms: Seq<MsgView>) -> int
    decreases ms.len(),
{
    if ms.len() == 0 {
        0
    } else {
        sum_tokens(ms.drop_last()) + ms.last().tokens
    }
}

/// The text that stands for summarized messages.
pub open spec fn summary_text(ms: Seq<MsgView>) -> Seq<char> {
    "[Summary of previous conversation: "@ + crate::text::dec(count_role(ms, MessageRole::User))
        + " user messages, "@ + crate::text::dec(count_role(ms, MessageRole::Assistant))
        + " assistant responses, "@ + crate::text::dec(count_role(ms, MessageRole::Tool))
        + " tool interactions]"@
}

/// Summary pruning: the older half of the prunable messages is replaced by
/// one pinned system message that summarizes it, stamped `now`; with
/// summaries off, or fewer than four prunable messages, a sliding-window
/// step instead.
pub open spec fn prune_summary(m: CtxModel, config: ContextConfig, now: u64) -> CtxModel {
    let k = prunable_prefix(m, config);
    if !config.enable_summarization || k < 4 {
        prune_sliding(m, config)
    } else {
        let gone = m.messages.take(k / 2);
        let text = summary_text(gone);
        let st = estimate(config.token_estimation, byte_len(text));
        let summary = MsgView {
            role: MessageRole::System,
            content: text,
            tokens: st as usize,
            index: m.stats.messages_added,
            pinned: true,
            timestamp: now,
            metadata: Some(
                MetaView {
                    tool_name: None,
                    is_summary: true,
                    summarized_count: Some(gone.len() as usize),
                    tags: seq![],
                },
            ),
        };
        let tc = counts_removed(m.tokens, gone);
        CtxModel {
            messages: seq![summary] + m.messages.skip(k / 2),
            tokens: TokenCount {
                total: sat_add(tc.total as int, st) as usize,
                system: sat_add(tc.system as int, st) as usize,
                ..tc
            },
            stats: ContextStats {
                summaries_generated: sat_add(m.stats.summaries_generated as int, 1) as usize,
                messages_pruned: sat_add(m.stats.messages_pruned as int, gone.len() as int) as usize,
                tokens_saved: sat_add(
                    m.stats.tokens_saved as int,
                    sat_sub(sum_tokens(gone), st),
                ) as usize,
                ..m.stats
            },
        }
    }
}

/// One pruning step of the configured strategy.
pub open spec fn prune_step(m: CtxModel, config: ContextConfig, now: u64) -> CtxModel {
    match config.pruning_strategy {
        PruningStrategy::SlidingWindow => prune_sliding(m, config),
        PruningStrategy::PriorityBased => prune_priority(m, config),
        PruningStrategy::Summarize => prune_summary(m, config, now),
        PruningStrategy::Hybrid => if config.enable_summarization && m.messages.len() > 10 {
            prune_summary(m, config, now)
        } else {
            prune_priority(m, config)
        },
    }
}

/// Under the hybrid strategy with summarization on, a pruning step over
/// more than ten messages, with at least four before the recent ones it
/// keeps, summarizes: the older half of those messages gives way to one
/// pinned System summary message that comes first and says how many it
/// stands for, the other messages follow unchanged, and one more summary is
/// counted.
pub proof fn lemma_hybrid_summarizes(m: CtxModel, config: ContextConfig, now: u64)
    requires
        config.pruning_strategy == PruningStrategy::Hybrid,
        config.enable_summarization,
        m.messages.len() > 10,
        m.messages.len() >= config.preserve_recent_count + 4,
        m.stats.summaries_generated < usize::MAX,
    ensures
        ({
            let n = prune_step(m, config, now);
            let half = (m.messages.len() - config.preserve_recent_count) / 2;
            &&& n.messages.len() == m.messages.len() - half + 1
            &&& n.messages[0].role == MessageRole::System
            &&& n.messages[0].pinned
            &&& n.messages[0].metadata matches Some(md) && md.is_summary && md.summarized_count == Some(
                half as usize,
            )
            &&& n.messages.skip(1) == m.messages.skip(half)
            &&& n.stats.summaries_generated == m.stats.summaries_generated + 1
        }),
{
    let n = prune_step(m, config, now);
    let k = prunable_prefix(m, config);
    assert(k == m.messages.len() - config.preserve_recent_count);
    assert(n.messages.skip(1) =~= m.messages.skip(k / 2));
}

/// The hybrid strategy prunes as the summarizing strategy does when
/// summarization is on and there are more than ten messages, and as the
/// priority strategy does otherwise.
pub proof fn lemma_hybrid_chooses(m: CtxModel, config: ContextConfig, now: u64)
    requires
        config.pruning_strategy == PruningStrategy::Hybrid,
    ensures
        config.enable_summarization && m.messages.len() > 10 ==> prune_step(m, config, now) == prune_step(
            m,
            ContextConfig { pruning_strategy: PruningStrategy::Summarize, ..config },
            now,
        ),
        !(config.enable_summarization && m.messages.len() > 10) ==> prune_step(m, config, now)
            == prune_step(m, ContextConfig { pruning_strategy: PruningStrategy::PriorityBased, ..config }, now),
{
}

/// Pruning steps while the messages are at or over the budget, until a
/// step finds nothing to prune.
pub open spec fn prune_all(m: CtxModel, config: ContextConfig, now: u64) -> CtxModel
    decreases m.messages.len(),
{
    if over_budget(m, config) {
        let n = prune_step(m, config, now);
        if n.messages.len() < m.messages.len() {
            prune_all(n, config, now)
        } else {
            m
        }
    } else {
        m
    }
}

/// The role names used in formatted messages.
pub open spec fn role_name(role: MessageRole) -> Seq<char> {
    match role {
        MessageRole::System => "system"@,
        MessageRole::User => "user"@,
        MessageRole::Assistant => "assistant"@,
        MessageRole::Tool => "tool"@,
    }
}

/// The messages as sent to the model: the system prompt first, when set.
pub open spec fn formatted(prompt: Option<Seq<char>>, ms: Seq<MsgView>) -> Seq<(Seq<char>, Seq<char>)> {
    (match prompt {
        Some(p) => seq![("system"@, p)],
        None => seq![],
    }) + ms.map_values(|m: MsgView| (role_name(m.role), m.content))
}

// ─── Lemmas on the pruning choices ───────────────────────────────────────────

/// The first unpinned message is the first whose predecessors are all pinned.
proof fn lemma_first_unpinned(ms: Seq<MsgView>, limit: int, i: int)
    requires
        0 <= i <= limit <= ms.len(),
        forall|j: int| 0 <= j < i ==> #[trigger] ms[j].pinned,
    ensures
        i < limit && !ms[i].pinned ==> first_unpinned(ms, limit) == Some(i),
        i == limit ==> first_unpinned(ms, limit) is None,
    decreases limit,
{
    if limit > 0 {
        if i < limit {
            lemma_first_unpinned(ms, limit - 1, if i < limit - 1 { i } else { limit - 1 });
            if i < limit - 1 {
                lemma_first_unpinned(ms, limit - 1, i);
            } else {
                lemma_first_unpinned(ms, limit - 1, limit - 1);
            }
        } else {
            lemma_first_unpinned(ms, limit - 1, limit - 1);
        }
    }
}

/// A pruning step that removes nothing changes nothing.
proof fn lemma_step_no_progress(m: CtxModel, config: ContextConfig, now: u64)
    requires
        prune_step(m, config, now).messages.len() >= m.messages.len(),
    ensures
        prune_step(m, config, now) == m,
{
    match first_unpinned(m.messages, prunable_prefix(m, config)) {
        Some(i) => {
            lemma_first_unpinned_bound(m.messages, prunable_prefix(m, config));
        },
        None => {},
    }
    match lowest_unpinned(
        m.messages,
        prunable_prefix(m, config),
        m.stats.messages_added as int,
        config.priority_weights,
    ) {
        Some(i) => {
            lemma_lowest_unpinned_bound(
                m.messages,
                prunable_prefix(m, config),
                m.stats.messages_added as int,
                config.priority_weights,
            );
        },
        None => {},
    }
}

/// The first unpinned message lies within the limit.
proof fn lemma_first_unpinned_bound(ms: Seq<MsgView>, limit: int)
    ensures
        first_unpinned(ms, limit) matches Some(i) ==> 0 <= i < limit,
    decreases limit,
{
    if limit > 0 {
        lemma_first_unpinned_bound(ms, limit - 1);
    }
}

/// The lowest unpinned message lies within the limit and is unpinned.
proof fn lemma_lowest_unpinned_bound(ms: Seq<MsgView>, limit: int, added: int, w: PriorityWeights)
    ensures
        lowest_unpinned(ms, limit, added, w) matches Some(i) ==> 0 <= i < limit && !ms[i].pinned,
    decreases limit,
{
    if limit > 0 {
        lemma_lowest_unpinned_bound(ms, limit - 1, added, w);
    }
}

// ─── The manager ─────────────────────────────────────────────────────────────

/// The current time in whole seconds since the Unix epoch, zero before it.
fn current_timestamp() -> (r: u64)
    ensures
        exists|ms: i64|
            crate::clock::in_clock_range(ms as int) && r == if ms < 0 {
                0
            } else {
                ms / 1000
            },
{
    let ms = crate::clock::now_millis();
    if ms < 0 {
        0
    } else {
        (ms / 1000) as u64
    }
}

/// The state after adding a message, before pruning.
pub open spec fn with_message(
    m: CtxModel,
    config: ContextConfig,
    role: MessageRole,
    content: Seq<char>,
    metadata: Option<MetaView>,
    now: u64,
) -> CtxModel {
    let t = estimate(config.token_estimation, byte_len(content));
    let msg = MsgView {
        role,
        content,
        tokens: t as usize,
        index: m.stats.messages_added,
        pinned: false,
        timestamp: now,
        metadata,
    };
    CtxModel {
        messages: m.messages.push(msg),
        tokens: count_added(m.tokens, role, t),
        stats: ContextStats {
            messages_added: sat_add(m.stats.messages_added as int, 1) as usize,
            tokens_processed: sat_add(m.stats.tokens_processed as int, t) as usize,
            ..m.stats
        },
    }
}

/// The first message with the given index, if any.
pub open spec fn find_index(ms: Seq<MsgView>, index: usize) -> Option<int>
    decreases ms.len(),
{
    if ms.len() == 0 {
        None
    } else {
        match find_index(ms.drop_last(), index) {
            Some(i) => Some(i),
            None => if ms.last().index == index {
                Some(ms.len() - 1)
            } else {
                None
            },
        }
    }
}

/// Keeps the messages sent to a model within its context window.
pub struct ContextManager {
    config: ContextConfig,
    messages: Vec<ContextMessage>,
    system_prompt: Option<String>,
    token_count: TokenCount,
    stats: ContextStats,
}

impl ContextManager {
    /// Messages, token counts and statistics.
    pub closed spec fn model(&self) -> CtxModel {
        CtxModel { messages: msg_views(self.messages@), tokens: self.token_count, stats: self.stats }
    }

    /// The configuration.
    pub closed spec fn cfg(&self) -> ContextConfig {
        self.config
    }

    /// The system prompt.
    pub closed spec fn prompt(&self) -> Option<Seq<char>> {
        match self.system_prompt {
            Some(p) => Some(p@),
            None => None,
        }
    }

    /// The manager's invariant: the weights are in range.
    pub closed spec fn wf(&self) -> bool {
        self.config.weights_in_range()
    }

    /// A manager with the default configuration.
    pub fn new() -> (r: ContextManager)
        ensures
            r.wf(),
            r.model().messages.len() == 0,
            r.model().tokens == (TokenCount { total: 0, system: 0, user: 0, assistant: 0, tool: 0 }),
            r.model().stats == (ContextStats {
                messages_added: 0,
                messages_pruned: 0,
                summaries_generated: 0,
                tokens_processed: 0,
                tokens_saved: 0,
            }),
            r.prompt() is None,
    {
        Self::with_config(ContextConfig::default())
    }

    /// A manager with the given configuration.
    pub fn with_config(config: ContextConfig) -> (r: ContextManager)
        requires
            config.weights_in_range(),
        ensures
            r.wf(),
            r.cfg() == config,
            r.model().messages.len() == 0,
            r.model().tokens == (TokenCount { total: 0, system: 0, user: 0, assistant: 0, tool: 0 }),
            r.model().stats == (ContextStats {
                messages_added: 0,
                messages_pruned: 0,
                summaries_generated: 0,
                tokens_processed: 0,
                tokens_saved: 0,
            }),
            r.prompt() is None,
    {
        let r = ContextManager {
            config,
            messages: Vec::new(),
            system_prompt: None,
            token_count: TokenCount::default(),
            stats: ContextStats::default(),
        };
        assert(msg_views(r.messages@) =~= Seq::<MsgView>::empty());
        r
    }

    /// The configuration.
    pub fn config(&self) -> (r: &ContextConfig)
        ensures
            *r == self.cfg(),
    {
        &self.config
    }

    /// The system prompt, when set.
    pub fn system_prompt(&self) -> (r: Option<&str>)
        ensures
            match r {
                Some(p) => self.prompt() == Some(p@),
                None => self.prompt() is None,
            },
    {
        match &self.system_prompt {
            Some(p) => Some(p.as_str()),
            None => None,
        }
    }

    /// Estimated tokens of a text.
    pub fn estimate_tokens(&self, content: &str) -> (r: usize)
        ensures
            r == estimate(self.cfg().token_estimation, byte_len(content@)),
    {
        let len = content.len();
        proof {
            assert(len as int == byte_len(content@));
        }
        match self.config.token_estimation {
            TokenEstimation::Custom { chars_per_token_milli: c } => {
                if c == 0 {
                    if len == 0 {
                        0
                    } else {
                        usize::MAX
                    }
                } else {
                    let num: u128 = (len as u128) * 1000 + (c as u128) - 1;
                    let t: u128 = num / (c as u128);
                    assert(t == (len * 1000 + c - 1) / (c as int));
                    if t > usize::MAX as u128 {
                        usize::MAX
                    } else {
                        t as usize
                    }
                }
            },
            _ => {
                assert((len + 3) / 4 == len / 4 + if len % 4 == 0 {
                    0int
                } else {
                    1int
                });
                if len % 4 == 0 {
                    len / 4
                } else {
                    len / 4 + 1
                }
            },
        }
    }

    /// Sets the system prompt; its tokens replace the system count.
    pub fn set_system_prompt(&mut self, prompt: &str)
        ensures
            final(self).wf() == old(self).wf(),
            final(self).cfg() == old(self).cfg(),
            final(self).prompt() == Some(prompt@),
            final(self).model().messages == old(self).model().messages,
            final(self).model().stats == old(self).model().stats,
            final(self).model().tokens == (TokenCount {
                system: estimate(old(self).cfg().token_estimation, byte_len(prompt@)) as usize,
                ..old(self).model().tokens
            }),
    {
        let tokens = self.estimate_tokens(prompt);
        self.token_count.system = tokens;
        self.system_prompt = Some(owned(prompt));
    }

    /// Takes the message at `i` out as pruned.
    fn prune_index(&mut self, i: usize)
        requires
            i < old(self).messages@.len(),
        ensures
            final(self).model() == prune_at(old(self).model(), i as int),
            final(self).config == old(self).config,
            final(self).system_prompt == old(self).system_prompt,
    {
        let ghost before = self.messages@;
        let msg = self.messages.remove(i);
        assert(msg_views(self.messages@) =~= msg_views(before).remove(i as int));
        self.remove_counts(&msg);
        self.stats.messages_pruned = self.stats.messages_pruned.saturating_add(1);
        self.stats.tokens_saved = self.stats.tokens_saved.saturating_add(msg.tokens);
    }

    /// Takes a removed message's tokens off the counts.
    fn remove_counts(&mut self, msg: &ContextMessage)
        ensures
            final(self).token_count == count_removed(old(self).token_count, msg_view(*msg)),
            final(self).messages == old(self).messages,
            final(self).stats == old(self).stats,
            final(self).config == old(self).config,
            final(self).system_prompt == old(self).system_prompt,
    {
        self.token_count.total = self.token_count.total.saturating_sub(msg.tokens);
        match msg.role {
            MessageRole::System => {
                self.token_count.system = self.token_count.system.saturating_sub(msg.tokens);
            },
            MessageRole::User => {
                self.token_count.user = self.token_count.user.saturating_sub(msg.tokens);
            },
            MessageRole::Assistant => {
                self.token_count.assistant = self.token_count.assistant.saturating_sub(msg.tokens);
            },
            MessageRole::Tool => {
                self.token_count.tool = self.token_count.tool.saturating_sub(msg.tokens);
            },
        }
    }

    /// Sliding-window pruning.
    fn prune_sliding_window(&mut self)
        ensures
            final(self).model() == prune_sliding(old(self).model(), old(self).cfg()),
            final(self).config == old(self).config,
            final(self).system_prompt == old(self).system_prompt,
    {
        let skip = self.config.preserve_recent_count;
        if self.messages.len() <= skip {
            return;
        }
        let limit = self.messages.len() - skip;
        let ghost views = msg_views(self.messages@);
        let mut i: usize = 0;
        while i < limit
            invariant
                i <= limit <= self.messages@.len(),
                views == msg_views(self.messages@),
                *self == *old(self),
                limit == prunable_prefix(self.model(), self.config),
                forall|j: int| 0 <= j < i ==> #[trigger] views[j].pinned,
            decreases limit - i,
        {
            if !self.messages[i].pinned {
                proof {
                    lemma_first_unpinned(views, limit as int, i as int);
                }
                self.prune_index(i);
                return;
            }
            i += 1;
        }
        proof {
            lemma_first_unpinned(views, limit as int, limit as int);
        }
    }

    /// Whether message `a` has a strictly lower priority than `b`.
    fn lower(&self, a: &ContextMessage, b: &ContextMessage) -> (r: bool)
        requires
            self.wf(),
        ensures
            r == lower_priority(
                msg_view(*a),
                msg_view(*b),
                self.stats.messages_added as int,
                self.config.priority_weights,
            ),
    {
        let w = self.config.priority_weights;
        let added = self.stats.messages_added;
        let ra = added.saturating_sub(a.index) as u128;
        let rb = added.saturating_sub(b.index) as u128;
        let wa = match a.role {
            MessageRole::System => w.system_message,
            MessageRole::User => w.user_message,
            MessageRole::Assistant => w.assistant_message,
            MessageRole::Tool => w.tool_call,
        } as u128;
        let wb = match b.role {
            MessageRole::System => w.system_message,
            MessageRole::User => w.user_message,
            MessageRole::Assistant => w.assistant_message,
            MessageRole::Tool => w.tool_call,
        } as u128;
        let m = w.recency_multiplier as u128;
        assert(rb * m <= 0x1_0000_0000_0000_0000 * 1_000_000) by (nonlinear_arith)
            requires
                rb < 0x1_0000_0000_0000_0000,
                m <= 1_000_000,
        ;
        assert(ra * m <= 0x1_0000_0000_0000_0000 * 1_000_000) by (nonlinear_arith)
            requires
                ra < 0x1_0000_0000_0000_0000,
                m <= 1_000_000,
        ;
        let da = 1000 + ra * m;
        let db = 1000 + rb * m;
        assert(wa * db <= 1_000_000 * (1000 + 0x1_0000_0000_0000_0000 * 1_000_000)) by (nonlinear_arith)
            requires
                wa <= 1_000_000,
                db <= 1000 + 0x1_0000_0000_0000_0000 * 1_000_000,
        ;
        assert(wb * da <= 1_000_000 * (1000 + 0x1_0000_0000_0000_0000 * 1_000_000)) by (nonlinear_arith)
            requires
                wb <= 1_000_000,
                da <= 1000 + 0x1_0000_0000_0000_0000 * 1_000_000,
        ;
        wa * db < wb * da
    }

    /// Priority-based pruning.
    fn prune_priority_based(&mut self)
        requires
            old(self).wf(),
        ensures
            final(self).wf(),
            final(self).model() == prune_priority(old(self).model(), old(self).cfg()),
            final(self).config == old(self).config,
            final(self).system_prompt == old(self).system_prompt,
    {
        let skip = self.config.preserve_recent_count;
        if self.messages.len() <= skip {
            return;
        }
        let limit = self.messages.len() - skip;
        let ghost views = msg_views(self.messages@);
        let mut best: Option<usize> = None;
        let mut i: usize = 0;
        while i < limit
            invariant
                i <= limit <= self.messages@.len(),
                self.wf(),
                views == msg_views(self.messages@),
                limit == prunable_prefix(self.model(), self.config),
                best == match lowest_unpinned(
                    views,
                    i as int,
                    self.stats.messages_added as int,
                    self.config.priority_weights,
                ) {
                    Some(b) => Some(b as usize),
                    None => None::<usize>,
                },
            decreases limit - i,
        {
            proof {
                lemma_lowest_unpinned_bound(
                    views,
                    i as int,
                    self.stats.messages_added as int,
                    self.config.priority_weights,
                );
            }
            if !self.messages[i].pinned {
                match best {
                    Some(b) => {
                        if self.lower(&self.messages[i], &self.messages[b]) {
                            best = Some(i);
                        }
                    },
                    None => {
                        best = Some(i);
                    },
                }
            }
            i += 1;
        }
        proof {
            lemma_lowest_unpinned_bound(
                views,
                limit as int,
                self.stats.messages_added as int,
                self.config.priority_weights,
            );
        }
        match best {
            Some(b) => self.prune_index(b),
            None => {},
        }
    }

    /// Summary pruning.
    fn prune_with_summary(&mut self, now: u64)
        ensures
            final(self).model() == prune_summary(old(self).model(), old(self).cfg(), now),
            final(self).config == old(self).config,
            final(self).system_prompt == old(self).system_prompt,
    {
        if !self.config.enable_summarization {
            self.prune_sliding_window();
            return;
        }
        let skip = self.config.preserve_recent_count;
        let k = self.messages.len().saturating_sub(skip);
        if k < 4 {
            self.prune_sliding_window();
            return;
        }
        let half = k / 2;
        let ghost m0 = self.model();
        let ghost all = self.messages@;
        let mut rest = self.messages.split_off(half);
        std::mem::swap(&mut self.messages, &mut rest);
        let gone = rest;
        let ghost gv = msg_views(gone@);
        assert(gv =~= m0.messages.take(half as int));
        assert(msg_views(self.messages@) =~= m0.messages.skip(half as int));
        let mut users: usize = 0;
        let mut assistants: usize = 0;
        let mut tools: usize = 0;
        let mut sum: u128 = 0;
        let mut j: usize = 0;
        while j < gone.len()
            invariant
                j <= gone@.len(),
                gv == msg_views(gone@),
                users == count_role(gv.take(j as int), MessageRole::User),
                assistants == count_role(gv.take(j as int), MessageRole::Assistant),
                tools == count_role(gv.take(j as int), MessageRole::Tool),
                sum == sum_tokens(gv.take(j as int)),
                sum <= j * 0x1_0000_0000_0000_0000,
                self.token_count == counts_removed(m0.tokens, gv.take(j as int)),
                self.stats == m0.stats,
                self.config == old(self).config,
                self.system_prompt == old(self).system_prompt,
                msg_views(self.messages@) == m0.messages.skip(half as int),
                users <= j && assistants <= j && tools <= j,
            decreases gone@.len() - j,
        {
            assert(gv.take(j + 1).drop_last() =~= gv.take(j as int));
            let msg = &gone[j];
            match msg.role {
                MessageRole::User => {
                    users = users + 1;
                },
                MessageRole::Assistant => {
                    assistants = assistants + 1;
                },
                MessageRole::Tool => {
                    tools = tools + 1;
                },
                MessageRole::System => {},
            }
            sum = sum + msg.tokens as u128;
            self.remove_counts(msg);
            j += 1;
        }
        assert(gv.take(gone@.len() as int) =~= gv);
        let mut text = chars_of("[Summary of previous conversation: ");
        push_dec(&mut text, users as u64);
        extend_str(&mut text, " user messages, ");
        push_dec(&mut text, assistants as u64);
        extend_str(&mut text, " assistant responses, ");
        push_dec(&mut text, tools as u64);
        extend_str(&mut text, " tool interactions]");
        let content = string_from_chars(&text);
        let st = self.estimate_tokens(content.as_str());
        let count = gone.len();
        let tags: Vec<String> = Vec::new();
        assert(crate::text::string_views(tags@) =~= Seq::<Seq<char>>::empty());
        let summary = ContextMessage {
            role: MessageRole::System,
            content,
            tokens: st,
            index: self.stats.messages_added,
            pinned: true,
            timestamp: now,
            metadata: Some(
                MessageMetadata {
                    tool_name: None,
                    is_summary: true,
                    summarized_count: Some(count),
                    tags,
                },
            ),
        };
        let ghost tail = self.messages@;
        self.messages.insert(0, summary);
        proof {
            assert(msg_views(self.messages@) =~= seq![msg_view(summary)] + msg_views(tail));
        }
        self.token_count.total = self.token_count.total.saturating_add(st);
        self.token_count.system = self.token_count.system.saturating_add(st);
        self.stats.summaries_generated = self.stats.summaries_generated.saturating_add(1);
        self.stats.messages_pruned = self.stats.messages_pruned.saturating_add(count);
        let saved: u128 = if sum > st as u128 {
            sum - st as u128
        } else {
            0
        };
        let saved_usize: usize = if saved > usize::MAX as u128 {
            usize::MAX
        } else {
            saved as usize
        };
        self.stats.tokens_saved = self.stats.tokens_saved.saturating_add(saved_usize);
    }

    /// One pruning step of the configured strategy.
    fn prune_step(&mut self, now: u64)
        requires
            old(self).wf(),
        ensures
            final(self).wf(),
            final(self).model() == prune_step(old(self).model(), old(self).cfg(), now),
            final(self).config == old(self).config,
            final(self).system_prompt == old(self).system_prompt,
    {
        match self.config.pruning_strategy {
            PruningStrategy::SlidingWindow => self.prune_sliding_window(),
            PruningStrategy::PriorityBased => self.prune_priority_based(),
            PruningStrategy::Summarize => self.prune_with_summary(now),
            PruningStrategy::Hybrid => {
                if self.config.enable_summarization && self.messages.len() > 10 {
                    self.prune_with_summary(now);
                } else {
                    self.prune_priority_based();
                }
            },
        }
    }

    /// Whether the messages have reached the budget.
    pub fn needs_pruning(&self) -> (r: bool)
        ensures
            r == over_budget(self.model(), self.cfg()),
    {
        let max_message_tokens = self.config.max_tokens.saturating_sub(
            self.config.reserved_response_tokens,
        ).saturating_sub(self.config.reserved_system_tokens);
        self.token_count.total >= max_message_tokens
    }

    /// Prunes while the messages are at or over the budget and pruning
    /// removes something.
    fn prune_if_needed(&mut self, now: u64)
        requires
            old(self).wf(),
        ensures
            final(self).wf(),
            final(self).model() == prune_all(old(self).model(), old(self).cfg(), now),
            final(self).config == old(self).config,
            final(self).system_prompt == old(self).system_prompt,
    {
        let ghost target = prune_all(self.model(), self.config, now);
        loop
            invariant_except_break
                self.wf(),
                prune_all(self.model(), self.config, now) == target,
                self.config == old(self).config,
                self.system_prompt == old(self).system_prompt,
            ensures
                self.wf(),
                self.model() == target,
                self.config == old(self).config,
                self.system_prompt == old(self).system_prompt,
            decreases self.messages@.len(),
        {
            if !self.needs_pruning() {
                break;
            }
            let before = self.messages.len();
            let ghost m = self.model();
            self.prune_step(now);
            if self.messages.len() >= before {
                proof {
                    lemma_step_no_progress(m, self.config, now);
                }
                break;
            }
        }
    }

    /// Adds a message stamped `now` and prunes.
    fn push_message_at(
        &mut self,
        role: MessageRole,
        content: &str,
        metadata: Option<MessageMetadata>,
        now: u64,
    )
        requires
            old(self).wf(),
        ensures
            final(self).wf(),
            final(self).cfg() == old(self).cfg(),
            final(self).prompt() == old(self).prompt(),
            final(self).model() == prune_all(
                with_message(
                    old(self).model(),
                    old(self).cfg(),
                    role,
                    content@,
                    match metadata {
                        Some(md) => Some(meta_view(md)),
                        None => None,
                    },
                    now,
                ),
                old(self).cfg(),
                now,
            ),
    {
        let tokens = self.estimate_tokens(content);
        let index = self.stats.messages_added;
        let message = ContextMessage {
            role,
            content: owned(content),
            tokens,
            index,
            pinned: false,
            timestamp: now,
            metadata,
        };
        let ghost before = self.messages@;
        match role {
            MessageRole::System => {
                self.token_count.system = self.token_count.system.saturating_add(tokens);
            },
            MessageRole::User => {
                self.token_count.user = self.token_count.user.saturating_add(tokens);
            },
            MessageRole::Assistant => {
                self.token_count.assistant = self.token_count.assistant.saturating_add(tokens);
            },
            MessageRole::Tool => {
                self.token_count.tool = self.token_count.tool.saturating_add(tokens);
            },
        }
        self.token_count.total = self.token_count.total.saturating_add(tokens);
        self.messages.push(message);
        assert(msg_views(self.messages@) =~= msg_views(before).push(msg_view(message)));
        self.stats.messages_added = self.stats.messages_added.saturating_add(1);
        self.stats.tokens_processed = self.stats.tokens_processed.saturating_add(tokens);
        self.prune_if_needed(now);
    }

    /// Adds a message stamped `now` and prunes; gives back the newest
    /// message.
    pub fn add_message_at(
        &mut self,
        role: MessageRole,
        content: &str,
        metadata: Option<MessageMetadata>,
        now: u64,
    ) -> (r: &ContextMessage)
        requires
            old(self).wf(),
            prune_all(
                with_message(
                    old(self).model(),
                    old(self).cfg(),
                    role,
                    content@,
                    match metadata {
                        Some(md) => Some(meta_view(md)),
                        None => None,
                    },
                    now,
                ),
                old(self).cfg(),
                now,
            ).messages.len() > 0,
        ensures
            final(self).wf(),
            final(self).cfg() == old(self).cfg(),
            final(self).prompt() == old(self).prompt(),
            final(self).model() == prune_all(
                with_message(
                    old(self).model(),
                    old(self).cfg(),
                    role,
                    content@,
                    match metadata {
                        Some(md) => Some(meta_view(md)),
                        None => None,
                    },
                    now,
                ),
                old(self).cfg(),
                now,
            ),
            msg_view(*r) == final(self).model().messages.last(),
    {
        self.push_message_at(role, content, metadata, now);
        let n = self.messages.len();
        &self.messages[n - 1]
    }

    /// Adds a message and prunes; gives back the newest message.
    pub fn add_message(&mut self, role: MessageRole, content: &str) -> (r: &ContextMessage)
        requires
            old(self).wf(),
            forall|now: u64|
                #[trigger] prune_all(
                    with_message(old(self).model(), old(self).cfg(), role, content@, None, now),
                    old(self).cfg(),
                    now,
                ).messages.len() > 0,
        ensures
            final(self).wf(),
            final(self).cfg() == old(self).cfg(),
            final(self).prompt() == old(self).prompt(),
            exists|now: u64|
                final(self).model() == #[trigger] prune_all(
                    with_message(old(self).model(), old(self).cfg(), role, content@, None, now),
                    old(self).cfg(),
                    now,
                ),
            msg_view(*r) == final(self).model().messages.last(),
    {
        let now = current_timestamp();
        self.add_message_at(role, content, None, now)
    }

    /// Adds a message and prunes; gives back the newest message, or `None`
    /// when pruning left no message.
    pub fn try_add_message(&mut self, role: MessageRole, content: &str) -> (r: Option<&ContextMessage>)
        requires
            old(self).wf(),
        ensures
            final(self).wf(),
            final(self).cfg() == old(self).cfg(),
            final(self).prompt() == old(self).prompt(),
            exists|now: u64|
                final(self).model() == #[trigger] prune_all(
                    with_message(old(self).model(), old(self).cfg(), role, content@, None, now),
                    old(self).cfg(),
                    now,
                ),
            r is Some <==> final(self).model().messages.len() > 0,
            r matches Some(m) ==> msg_view(*m) == final(self).model().messages.last(),
    {
        let now = current_timestamp();
        self.push_message_at(role, content, None, now);
        let n = self.messages.len();
        if n == 0 {
            None
        } else {
            Some(&self.messages[n - 1])
        }
    }

    /// Adds a message with metadata and prunes; gives back the newest
    /// message.
    pub fn add_message_with_metadata(
        &mut self,
        role: MessageRole,
        content: &str,
        metadata: MessageMetadata,
    ) -> (r: &ContextMessage)
        requires
            old(self).wf(),
            forall|now: u64|
                #[trigger] prune_all(
                    with_message(
                        old(self).model(),
                        old(self).cfg(),
                        role,
                        content@,
                        Some(meta_view(metadata)),
                        now,
                    ),
                    old(self).cfg(),
                    now,
                ).messages.len() > 0,
        ensures
            final(self).wf(),
            final(self).cfg() == old(self).cfg(),
            final(self).prompt() == old(self).prompt(),
            exists|now: u64|
                final(self).model() == #[trigger] prune_all(
                    with_message(
                        old(self).model(),
                        old(self).cfg(),
                        role,
                        content@,
                        Some(meta_view(metadata)),
                        now,
                    ),
                    old(self).cfg(),
                    now,
                ),
            msg_view(*r) == final(self).model().messages.last(),
    {
        let now = current_timestamp();
        self.add_message_at(role, content, Some(metadata), now)
    }

    /// Pins the first message with the given index, so that it is never
    /// pruned.
    pub fn pin_message(&mut self, index: usize)
        ensures
            final(self).wf() == old(self).wf(),
            final(self).cfg() == old(self).cfg(),
            final(self).prompt() == old(self).prompt(),
            final(self).model().tokens == old(self).model().tokens,
            final(self).model().stats == old(self).model().stats,
            final(self).model().messages == match find_index(old(self).model().messages, index) {
                Some(i) => old(self).model().messages.update(
                    i,
                    MsgView { pinned: true, ..old(self).model().messages[i] },
                ),
                None => old(self).model().messages,
            },
    {
        let ghost views = msg_views(self.messages@);
        let mut i: usize = 0;
        while i < self.messages.len()
            invariant
                i <= self.messages@.len(),
                views == msg_views(self.messages@),
                *self == *old(self),
                find_index(views.take(i as int), index) is None,
            decreases self.messages@.len() - i,
        {
            assert(views.take(i + 1).drop_last() =~= views.take(i as int));
            if self.messages[i].index == index {
                proof {
                    lemma_find_index_prefix(views, i as int + 1, index);
                }
                let mut msg = self.messages.remove(i);
                msg.pinned = true;
                self.messages.insert(i, msg);
                assert(msg_views(self.messages@) =~= views.update(
                    i as int,
                    MsgView { pinned: true, ..views[i as int] },
                ));
                return;
            }
            i += 1;
        }
        assert(views.take(views.len() as int) =~= views);
    }

    /// The messages, oldest first.
    pub fn get_messages(&self) -> (r: &[ContextMessage])
        ensures
            msg_views(r@) == self.model().messages,
    {
        self.messages.as_slice()
    }

    /// The messages as sent to the model.
    pub fn get_formatted_messages(&self) -> (r: Vec<FormattedMessage>)
        ensures
            r@.map_values(|f: FormattedMessage| (f.role@, f.content@)) == formatted(
                self.prompt(),
                self.model().messages,
            ),
    {
        let mut out: Vec<FormattedMessage> = Vec::new();
        match &self.system_prompt {
            Some(p) => {
                out.push(FormattedMessage { role: owned("system"), content: owned(p.as_str()) });
            },
            None => {},
        }
        let ghost head = out@.map_values(|f: FormattedMessage| (f.role@, f.content@));
        let ghost views = msg_views(self.messages@);
        let mut i: usize = 0;
        while i < self.messages.len()
            invariant
                i <= self.messages@.len(),
                views == msg_views(self.messages@),
                head == (match self.prompt() {
                    Some(p) => seq![("system"@, p)],
                    None => seq![],
                }),
                out@.map_values(|f: FormattedMessage| (f.role@, f.content@)) == head
                    + views.take(i as int).map_values(|m: MsgView| (role_name(m.role), m.content)),
            decreases self.messages@.len() - i,
        {
            let msg = &self.messages[i];
            let role = match msg.role {
                MessageRole::System => "system",
                MessageRole::User => "user",
                MessageRole::Assistant => "assistant",
                MessageRole::Tool => "tool",
            };
            let ghost o = out@;
            out.push(FormattedMessage { role: owned(role), content: owned(msg.content.as_str()) });
            proof {
                assert(views.take(i + 1) =~= views.take(i as int).push(views[i as int]));
                assert(out@.map_values(|f: FormattedMessage| (f.role@, f.content@)) =~= o.map_values(
                    |f: FormattedMessage| (f.role@, f.content@),
                ).push((role_name(msg.role), msg.content@)));
                assert(views.take(i + 1).map_values(|m: MsgView| (role_name(m.role), m.content))
                    =~= views.take(i as int).map_values(|m: MsgView| (role_name(m.role), m.content)).push(
                    (role_name(msg.role), msg.content@),
                ));
            }
            i += 1;
        }
        assert(views.take(views.len() as int) =~= views);
        out
    }

    /// The token counts.
    pub fn get_token_usage(&self) -> (r: &TokenCount)
        ensures
            *r == self.model().tokens,
    {
        &self.token_count
    }

    /// The tokens still available for messages.
    pub fn available_tokens(&self) -> (r: usize)
        ensures
            r == sat_sub(message_budget(self.cfg()), self.model().tokens.total as int),
    {
        self.token_count.available(&self.config)
    }

    /// The statistics.
    pub fn get_stats(&self) -> (r: &ContextStats)
        ensures
            *r == self.model().stats,
    {
        &self.stats
    }

    /// Removes every message, keeping the system prompt and its count.
    pub fn clear(&mut self)
        ensures
            final(self).wf() == old(self).wf(),
            final(self).cfg() == old(self).cfg(),
            final(self).prompt() == old(self).prompt(),
            final(self).model().messages.len() == 0,
            final(self).model().tokens == (TokenCount {
                total: 0,
                system: old(self).model().tokens.system,
                user: 0,
                assistant: 0,
                tool: 0,
            }),
            final(self).model().stats == old(self).model().stats,
    {
        self.messages = Vec::new();
        self.token_count = TokenCount {
            total: 0,
            system: self.token_count.system,
            user: 0,
            assistant: 0,
            tool: 0,
        };
        assert(msg_views(self.messages@) =~= Seq::<MsgView>::empty());
    }

    /// The number of messages.
    pub fn message_count(&self) -> (r: usize)
        ensures
            r == self.model().messages.len(),
    {
        self.messages.len()
    }
}

/// A match in a prefix is the first match of the whole.
proof fn lemma_find_index_prefix(ms: Seq<MsgView>, n: int, index: usize)
    requires
        0 < n <= ms.len(),
        find_index(ms.take(n - 1), index) is None,
        ms[n - 1].index == index,
    ensures
        find_index(ms, index) == Some(n - 1),
    decreases ms.len(),
{
    assert(ms.take(n).drop_last() =~= ms.take(n - 1));
    if n < ms.len() {
        assert(ms.drop_last().take(n - 1) =~= ms.take(n - 1));
        assert(ms.drop_last().take(n) =~= ms.take(n));
        lemma_find_index_prefix(ms.drop_last(), n, index);
    } else {
        assert(ms.take(n) =~= ms);
    }
}

/// Builds a context manager.
pub struct ContextManagerBuilder {
    config: ContextConfig,
    system_prompt: Option<String>,
}

impl ContextManagerBuilder {
    /// The configuration so far.
    pub closed spec fn cfg(&self) -> ContextConfig {
        self.config
    }

    /// The system prompt so far.
    pub closed spec fn prompt(&self) -> Option<Seq<char>> {
        match self.system_prompt {
            Some(p) => Some(p@),
            None => None,
        }
    }

    /// A builder with the default configuration and no system prompt.
    pub fn new() -> (r: ContextManagerBuilder)
        ensures
            r.cfg().weights_in_range(),
            r.cfg().max_tokens == 128_000,
            r.cfg().pruning_strategy == PruningStrategy::SlidingWindow,
            r.prompt() is None,
    {
        ContextManagerBuilder { config: ContextConfig::default(), system_prompt: None }
    }

    /// Sets the window size.
    pub fn max_tokens(self, tokens: usize) -> (r: ContextManagerBuilder)
        ensures
            r.cfg() == (ContextConfig { max_tokens: tokens, ..self.cfg() }),
            r.prompt() == self.prompt(),
    {
        ContextManagerBuilder { config: ContextConfig { max_tokens: tokens, ..self.config }, ..self }
    }

    /// Sets the tokens kept for the response.
    pub fn reserved_response_tokens(self, tokens: usize) -> (r: ContextManagerBuilder)
        ensures
            r.cfg() == (ContextConfig { reserved_response_tokens: tokens, ..self.cfg() }),
            r.prompt() == self.prompt(),
    {
        ContextManagerBuilder {
            config: ContextConfig { reserved_response_tokens: tokens, ..self.config },
            ..self
        }
    }

    /// Sets the pruning strategy.
    pub fn pruning_strategy(self, strategy: PruningStrategy) -> (r: ContextManagerBuilder)
        ensures
            r.cfg() == (ContextConfig { pruning_strategy: strategy, ..self.cfg() }),
            r.prompt() == self.prompt(),
    {
        ContextManagerBuilder {
            config: ContextConfig { pruning_strategy: strategy, ..self.config },
            ..self
        }
    }

    /// Turns summarization on or off.
    pub fn enable_summarization(self, enable: bool) -> (r: ContextManagerBuilder)
        ensures
            r.cfg() == (ContextConfig { enable_summarization: enable, ..self.cfg() }),
            r.prompt() == self.prompt(),
    {
        ContextManagerBuilder {
            config: ContextConfig { enable_summarization: enable, ..self.config },
            ..self
        }
    }

    /// Sets the system prompt.
    pub fn system_prompt(self, prompt: &str) -> (r: ContextManagerBuilder)
        ensures
            r.cfg() == self.cfg(),
            r.prompt() == Some(prompt@),
    {
        ContextManagerBuilder { system_prompt: Some(owned(prompt)), ..self }
    }

    /// The context manager.
    pub fn build(self) -> (r: ContextManager)
        requires
            self.cfg().weights_in_range(),
        ensures
            r.wf(),
            r.cfg() == self.cfg(),
            r.prompt() == self.prompt(),
            r.model().messages.len() == 0,
            r.model().stats == (ContextStats {
                messages_added: 0,
                messages_pruned: 0,
                summaries_generated: 0,
                tokens_processed: 0,
                tokens_saved: 0,
            }),
    {
        let mut manager = ContextManager::with_config(self.config);
        match self.system_prompt {
            Some(p) => manager.set_system_prompt(p.as_str()),
            None => {},
        }
        manager
    }
}

impl Default for ContextManagerBuilder {
    fn default() -> (r: ContextManagerBuilder)
        ensures
            r.cfg().weights_in_range(),
            r.prompt() is None,
    {
        ContextManagerBuilder::new()
    }
}

impl Default for ContextManager {
    fn default() -> (r: ContextManager)
        ensures
            r.wf(),
            r.model().messages.len() == 0,
    {
        ContextManager::new()
    }
}

} // verus!
