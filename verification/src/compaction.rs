//! Compaction of long conversations: the oldest turns are replaced by a
//! summary turn, the most recent turns are kept as they are.

use crate::conversation::{Conversation, ToolCall, ToolResult, TokenUsage, Turn};
use crate::text::{dec, extend_str, push_dec, string_from_chars};
use vstd::prelude::*;

verus! {

// ─── Token estimates ─────────────────────────────────────────────────────────

/// The length in bytes of the UTF-8 encoding, as `str::len` reports it.
pub open spec fn str_len(s: Seq<char>) -> usize {
    vstd::utf8::encode_utf8(s).len() as usize
}

/// The token estimate of a string: four bytes to a token, rounded up
/// (the byte length plus three, saturating, divided by four).
pub open spec fn str_tokens(s: Seq<char>) -> nat {
    let n = str_len(s) + 3;
    (if n > usize::MAX {
        usize::MAX as int
    } else {
        n
    } / 4) as nat
}

/// The tokens of the tool calls' names and arguments.
pub open spec fn calls_tokens(calls: Seq<ToolCall>) -> nat
    decreases calls.len(),
{
    if calls.len() == 0 {
        0
    } else {
        calls_tokens(calls.drop_last()) + str_tokens(calls.last().name@) + str_tokens(
            calls.last().arguments@,
        )
    }
}

/// The tokens of the tool results' outputs.
pub open spec fn results_tokens(rs: Seq<ToolResult>) -> nat
    decreases rs.len(),
{
    if rs.len() == 0 {
        0
    } else {
        results_tokens(rs.drop_last()) + str_tokens(rs.last().output@)
    }
}

/// The tokens of a turn: its message, response, tool calls and results.
pub open spec fn turn_tokens(t: Turn) -> nat {
    str_tokens(t.user_message@) + str_tokens(t.assistant_response@) + calls_tokens(t.tool_calls@)
        + results_tokens(t.tool_results@)
}

/// The tokens of the turns.
pub open spec fn turns_tokens(ts: Seq<Turn>) -> nat
    decreases ts.len(),
{
    if ts.len() == 0 {
        0
    } else {
        turns_tokens(ts.drop_last()) + turn_tokens(ts.last())
    }
}

/// The tokens of a conversation: its system prompt and its turns.
pub open spec fn conversation_tokens(c: Conversation) -> nat {
    str_tokens(c.system_prompt@) + turns_tokens(c.turns@)
}

/// Tool-call token sums grow with the calls.
proof fn lemma_calls_tokens_mono(c: Seq<ToolCall>, k: int)
    requires
        0 <= k <= c.len(),
    ensures
        calls_tokens(c.take(k)) <= calls_tokens(c),
    decreases c.len() - k,
{
    if k < c.len() {
        lemma_calls_tokens_mono(c, k + 1);
        assert(c.take(k + 1).drop_last() =~= c.take(k));
    } else {
        assert(c.take(k) =~= c);
    }
}

/// Tool-result token sums grow with the results.
proof fn lemma_results_tokens_mono(c: Seq<ToolResult>, k: int)
    requires
        0 <= k <= c.len(),
    ensures
        results_tokens(c.take(k)) <= results_tokens(c),
    decreases c.len() - k,
{
    if k < c.len() {
        lemma_results_tokens_mono(c, k + 1);
        assert(c.take(k + 1).drop_last() =~= c.take(k));
    } else {
        assert(c.take(k) =~= c);
    }
}

/// Turn token sums grow with the turns.
proof fn lemma_turns_tokens_mono(c: Seq<Turn>, k: int)
    requires
        0 <= k <= c.len(),
    ensures
        turns_tokens(c.take(k)) <= turns_tokens(c),
    decreases c.len() - k,
{
    if k < c.len() {
        lemma_turns_tokens_mono(c, k + 1);
        assert(c.take(k + 1).drop_last() =~= c.take(k));
    } else {
        assert(c.take(k) =~= c);
    }
}

/// The token sum of a concatenation.
proof fn lemma_turns_tokens_concat(a: Seq<Turn>, b: Seq<Turn>)
    ensures
        turns_tokens(a + b) == turns_tokens(a) + turns_tokens(b),
    decreases b.len(),
{
    if b.len() > 0 {
        lemma_turns_tokens_concat(a, b.drop_last());
        assert((a + b).drop_last() =~= a + b.drop_last());
    } else {
        assert(a + b =~= a);
    }
}

/// The token estimate of a string.
pub fn estimate_str_tokens(s: &str) -> (r: usize)
    ensures
        r == str_tokens(s@),
{
    s.len().saturating_add(3) / 4
}

/// The token estimate of a turn.
pub fn estimate_turn_tokens(turn: &Turn) -> (r: usize)
    requires
        turn_tokens(*turn) <= usize::MAX,
    ensures
        r == turn_tokens(*turn),
{
    let mut total = estimate_str_tokens(turn.user_message.as_str()) + estimate_str_tokens(
        turn.assistant_response.as_str(),
    );
    let ghost base = str_tokens(turn.user_message@) + str_tokens(turn.assistant_response@);
    let mut i: usize = 0;
    while i < turn.tool_calls.len()
        invariant
            i <= turn.tool_calls.len(),
            turn_tokens(*turn) <= usize::MAX,
            base == str_tokens(turn.user_message@) + str_tokens(turn.assistant_response@),
            total == base + calls_tokens(turn.tool_calls@.take(i as int)),
        decreases turn.tool_calls.len() - i,
    {
        proof {
            lemma_calls_tokens_mono(turn.tool_calls@, i + 1);
            assert(turn.tool_calls@.take(i + 1).drop_last() =~= turn.tool_calls@.take(i as int));
        }
        total = total + estimate_str_tokens(turn.tool_calls[i].name.as_str());
        total = total + estimate_str_tokens(turn.tool_calls[i].arguments.as_str());
        i += 1;
    }
    assert(turn.tool_calls@.take(turn.tool_calls.len() as int) =~= turn.tool_calls@);
    let mut j: usize = 0;
    while j < turn.tool_results.len()
        invariant
            j <= turn.tool_results.len(),
            turn_tokens(*turn) <= usize::MAX,
            total == base + calls_tokens(turn.tool_calls@) + results_tokens(turn.tool_results@.take(j as int)),
            base == str_tokens(turn.user_message@) + str_tokens(turn.assistant_response@),
        decreases turn.tool_results.len() - j,
    {
        proof {
            lemma_results_tokens_mono(turn.tool_results@, j + 1);
            assert(turn.tool_results@.take(j + 1).drop_last() =~= turn.tool_results@.take(j as int));
        }
        total = total + estimate_str_tokens(turn.tool_results[j].output.as_str());
        j += 1;
    }
    assert(turn.tool_results@.take(turn.tool_results.len() as int) =~= turn.tool_results@);
    total
}

/// The token estimate of a conversation: its system prompt and all turns.
pub fn estimate_tokens(conversation: &Conversation) -> (r: usize)
    requires
        conversation_tokens(*conversation) <= usize::MAX,
    ensures
        r == conversation_tokens(*conversation),
{
    let system_tokens = estimate_str_tokens(conversation.system_prompt.as_str());
    let mut turn_total: usize = 0;
    let mut i: usize = 0;
    let ghost ts = conversation.turns@;
    while i < conversation.turns.len()
        invariant
            i <= conversation.turns.len(),
            ts == conversation.turns@,
            conversation_tokens(*conversation) <= usize::MAX,
            system_tokens == str_tokens(conversation.system_prompt@),
            turn_total == turns_tokens(ts.take(i as int)),
        decreases conversation.turns.len() - i,
    {
        proof {
            lemma_turns_tokens_mono(ts, i + 1);
            assert(ts.take(i + 1).drop_last() =~= ts.take(i as int));
        }
        turn_total = turn_total + estimate_turn_tokens(&conversation.turns[i]);
        i += 1;
    }
    assert(ts.take(conversation.turns.len() as int) =~= ts);
    system_tokens + turn_total
}

/// Whether the conversation's estimate reaches the limit.
pub fn should_compact(conversation: &Conversation, limit: usize) -> (r: bool)
    requires
        conversation_tokens(*conversation) <= usize::MAX,
    ensures
        r == (conversation_tokens(*conversation) >= limit),
{
    estimate_tokens(conversation) >= limit
}

// ─── Configuration and result ────────────────────────────────────────────────

/// Configuration of compaction.
#[derive(Debug, Clone, Copy, PartialEq, Eq, Structural)]
pub struct CompactionConfig {
    /// Hard limit on context tokens.
    pub max_context_tokens: usize,
    /// The estimate at which compaction starts: the share of
    /// `max_context_tokens` that triggers it.
    pub compact_at_tokens: usize,
    /// How many of the most recent turns stay untouched.
    pub keep_recent_turns: usize,
    /// Token budget of the summary (four bytes to a token).
    pub summary_max_tokens: usize,
}

impl Default for CompactionConfig {
    /// 100 000 context tokens, compaction from 80 % of them, four recent
    /// turns kept, a summary of at most 2 000 tokens.
    fn default() -> (r: CompactionConfig)
        ensures
            r == (CompactionConfig {
                max_context_tokens: 100_000,
                compact_at_tokens: 80_000,
                keep_recent_turns: 4,
                summary_max_tokens: 2_000,
            }),
    {
        CompactionConfig {
            max_context_tokens: 100_000,
            compact_at_tokens: 80_000,
            keep_recent_turns: 4,
            summary_max_tokens: 2_000,
        }
    }
}

impl CompactionConfig {
    /// Whether the conversation is to be compacted.
    pub fn should_compact(&self, conversation: &Conversation) -> (r: bool)
        requires
            conversation_tokens(*conversation) <= usize::MAX,
        ensures
            r == (conversation_tokens(*conversation) >= self.compact_at_tokens),
    {
        should_compact(conversation, self.compact_at_tokens)
    }
}

/// Outcome of a compaction pass.
#[derive(Debug, Clone)]
pub struct CompactionResult {
    /// Estimated tokens before compaction.
    pub original_tokens: usize,
    /// Estimated tokens after compaction.
    pub compacted_tokens: usize,
    /// How many turns the summary replaced.
    pub turns_removed: usize,
    /// The summary text.
    pub summary: String,
}

// ─── Summary ─────────────────────────────────────────────────────────────────

/// The first line of a summary of `n` turns.
pub open spec fn summary_header(n: nat) -> Seq<char> {
    "[Conversation summary — "@ + dec(n) + " earlier turn(s)]\n"@
}

/// The summary line of turn `i`'s message (1-based in the text).
pub open spec fn user_line(i: int, t: Turn) -> Seq<char> {
    "Turn "@ + dec((i + 1) as nat) + ": User: "@ + t.user_message@
}

/// The summary line of turn `i`'s response.
pub open spec fn assistant_line(i: int, t: Turn) -> Seq<char> {
    "Turn "@ + dec((i + 1) as nat) + ": Assistant: "@ + t.assistant_response@
}

/// The marker for `k` turns left out of the summary.
pub open spec fn omitted_marker(k: nat) -> Seq<char> {
    "[… "@ + dec(k) + " turn(s) omitted due to summary length limit]\n"@
}

/// The bytes turn `i` adds to the summary: its lines and their newlines
/// (no response line when the response is empty).
pub open spec fn line_need(i: int, t: Turn) -> int {
    str_len(user_line(i, t)) + (if t.assistant_response@.len() == 0 {
        0
    } else {
        str_len(assistant_line(i, t)) + 1
    }) + 1
}

/// The summary lines from turn `i` on, `used` bytes being spent: each turn's
/// lines while they fit in the budget, then a marker for the rest.
pub open spec fn summary_body(ts: Seq<Turn>, i: int, used: int, budget: int) -> Seq<char>
    decreases ts.len() - i,
{
    if i < 0 || i >= ts.len() {
        seq![]
    } else if used + line_need(i, ts[i]) > budget {
        omitted_marker((ts.len() - i) as nat)
    } else {
        user_line(i, ts[i]) + "\n"@ + (if ts[i].assistant_response@.len() == 0 {
            seq![]
        } else {
            assistant_line(i, ts[i]) + "\n"@
        }) + summary_body(ts, i + 1, used + line_need(i, ts[i]), budget)
    }
}

/// Four bytes to each token of the budget, saturating.
pub open spec fn byte_budget(max_tokens: usize) -> int {
    if max_tokens * 4 > usize::MAX {
        usize::MAX as int
    } else {
        max_tokens * 4
    }
}

/// The summary of the turns within a token budget: a header, then the
/// turns' lines while they fit.
pub open spec fn summary_of(ts: Seq<Turn>, max_tokens: usize) -> Seq<char> {
    let h = summary_header(ts.len());
    h + summary_body(ts, 0, str_len(h) as int, byte_budget(max_tokens))
}

/// The line `prefix`, the decimal `n`, and `suffix`.
fn numbered(prefix: &str, n: u64, suffix: &str) -> (r: String)
    ensures
        r@ == prefix@ + dec(n as nat) + suffix@,
{
    let mut v = crate::text::chars_of(prefix);
    push_dec(&mut v, n);
    extend_str(&mut v, suffix);
    string_from_chars(&v)
}

/// The bytes a turn adds, or `None` when they do not fit in `usize`.
fn need_of(ul: &String, al: &Option<String>) -> (r: Option<usize>)
    ensures
        match r {
            Some(n) => n == str_len(ul@) + (match al {
                Some(a) => str_len(a@) + 1,
                None => 0,
            }) + 1,
            None => str_len(ul@) + (match al {
                Some(a) => str_len(a@) + 1,
                None => 0,
            }) + 1 > usize::MAX,
        },
{
    let base = match ul.as_str().len().checked_add(1) {
        Some(b) => b,
        None => {
            return None;
        },
    };
    match al {
        None => Some(base),
        Some(a) => match a.as_str().len().checked_add(1) {
            None => None,
            Some(x) => base.checked_add(x),
        },
    }
}

/// A summary of the turns within the token budget.
pub fn build_summary(turns: &[Turn], max_tokens: usize) -> (r: String)
    ensures
        r@ == summary_of(turns@, max_tokens),
{
    let ghost ts = turns@;
    let budget: usize = if max_tokens > usize::MAX / 4 {
        usize::MAX
    } else {
        max_tokens * 4
    };
    let n = turns.len();
    let header = numbered("[Conversation summary — ", n as u64, " earlier turn(s)]\n");
    let mut used: usize = header.as_str().len();
    let mut out = crate::text::chars_of(header.as_str());
    let ghost h = header@;
    let mut i: usize = 0;
    while i < n
        invariant_except_break
            i <= n,
            n == turns@.len(),
            ts == turns@,
            budget == byte_budget(max_tokens),
            h == summary_header(ts.len()),
            h + summary_body(ts, 0, str_len(h) as int, budget as int) == out@ + summary_body(
                ts,
                i as int,
                used as int,
                budget as int,
            ),
        ensures
            h + summary_body(ts, 0, str_len(h) as int, budget as int) == out@,
        decreases n - i,
    {
        let turn = &turns[i];
        let ul = numbered("Turn ", (i + 1) as u64, ": User: ");
        let ul = {
            let mut v = crate::text::chars_of(ul.as_str());
            extend_str(&mut v, turn.user_message.as_str());
            string_from_chars(&v)
        };
        let al: Option<String> = if turn.assistant_response.as_str().is_empty() {
            None
        } else {
            let a = numbered("Turn ", (i + 1) as u64, ": Assistant: ");
            let mut v = crate::text::chars_of(a.as_str());
            extend_str(&mut v, turn.assistant_response.as_str());
            Some(string_from_chars(&v))
        };
        assert(ul@ == user_line(i as int, ts[i as int]));
        assert(match al {
            Some(a) => ts[i as int].assistant_response@.len() != 0 && a@ == assistant_line(
                i as int,
                ts[i as int],
            ),
            None => ts[i as int].assistant_response@.len() == 0,
        });
        let need = need_of(&ul, &al);
        let exceed = match need {
            None => true,
            Some(nd) => match used.checked_add(nd) {
                None => true,
                Some(t) => t > budget,
            },
        };
        let ghost rest = summary_body(ts, i as int, used as int, budget as int);
        if exceed {
            let marker = numbered("[… ", (n - i) as u64, " turn(s) omitted due to summary length limit]\n");
            extend_str(&mut out, marker.as_str());
            assert(rest == omitted_marker((ts.len() - i) as nat));
            break;
        }
        let nd = match need {
            Some(x) => x,
            None => 0,
        };
        extend_str(&mut out, ul.as_str());
        extend_str(&mut out, "\n");
        match &al {
            Some(line) => {
                extend_str(&mut out, line.as_str());
                extend_str(&mut out, "\n");
            },
            None => {},
        }
        used = used + nd;
        assert(rest == user_line(i as int, ts[i as int]) + "\n"@ + (if ts[i as int].assistant_response@.len() == 0 {
            seq![]
        } else {
            assistant_line(i as int, ts[i as int]) + "\n"@
        }) + summary_body(ts, i + 1, used as int, budget as int));
        i += 1;
    }
    string_from_chars(&out)
}

// ─── Compaction ──────────────────────────────────────────────────────────────

/// Whether compaction replaces turns: the estimate reaches the threshold and
/// there are more turns than are kept.
pub open spec fn compacts(c: Conversation, cfg: CompactionConfig) -> bool {
    conversation_tokens(c) >= cfg.compact_at_tokens && c.turns@.len() > cfg.keep_recent_turns
}

/// The number of turns a compaction replaces.
pub open spec fn removed_count(c: Conversation, cfg: CompactionConfig) -> int {
    c.turns@.len() - cfg.keep_recent_turns
}

/// The summary a compaction inserts.
pub open spec fn compaction_summary(c: Conversation, cfg: CompactionConfig) -> Seq<char> {
    summary_of(c.turns@.take(removed_count(c, cfg)), cfg.summary_max_tokens)
}

/// The estimates before and after compaction fit in `usize`.
pub open spec fn compaction_fits(c: Conversation, cfg: CompactionConfig) -> bool {
    &&& conversation_tokens(c) <= usize::MAX
    &&& compacts(c, cfg) ==> str_tokens(c.system_prompt@) + str_tokens(""@) + str_tokens(
        compaction_summary(c, cfg),
    ) + turns_tokens(c.turns@.skip(removed_count(c, cfg))) <= usize::MAX
}

/// Compacts the conversation in place: when its estimate reaches the
/// threshold and it has more turns than are kept, the oldest turns are
/// replaced by one summary turn (empty message, the summary as response),
/// followed by the most recent turns unchanged.
pub fn compact_conversation(conversation: &mut Conversation, config: &CompactionConfig) -> (r:
    CompactionResult)
    requires
        compaction_fits(*old(conversation), *config),
    ensures
        r.original_tokens == conversation_tokens(*old(conversation)),
        !compacts(*old(conversation), *config) ==> {
            &&& *final(conversation) == *old(conversation)
            &&& r.compacted_tokens == r.original_tokens
            &&& r.turns_removed == 0
            &&& r.summary@.len() == 0
        },
        compacts(*old(conversation), *config) ==> {
            let k = removed_count(*old(conversation), *config);
            let s = compaction_summary(*old(conversation), *config);
            &&& r.turns_removed == k
            &&& r.summary@ == s
            &&& final(conversation).turns@.len() == config.keep_recent_turns + 1
            &&& final(conversation).turns@.skip(1) == old(conversation).turns@.skip(k)
            &&& final(conversation).turns@[0].user_message@.len() == 0
            &&& final(conversation).turns@[0].assistant_response@ == s
            &&& final(conversation).turns@[0].tool_calls@.len() == 0
            &&& final(conversation).turns@[0].tool_results@.len() == 0
            &&& final(conversation).turns@[0].completed_at is Some
            &&& final(conversation).turns@[0].error is None
            &&& final(conversation).turns@[0].tokens_used == Some(
                TokenUsage {
                    input: 0,
                    output: #[verifier::truncate] (str_tokens(s) as u32),
                    total: #[verifier::truncate] (str_tokens(s) as u32),
                },
            )
            &&& final(conversation).system_prompt == old(conversation).system_prompt
            &&& final(conversation).id == old(conversation).id
            &&& final(conversation).title == old(conversation).title
            &&& final(conversation).metadata == old(conversation).metadata
            &&& final(conversation).created_at == old(conversation).created_at
            &&& r.compacted_tokens == conversation_tokens(*final(conversation))
        },
{
    let original_tokens = estimate_tokens(conversation);
    if !config.should_compact(conversation) || conversation.turns.len() <= config.keep_recent_turns {
        return CompactionResult {
            original_tokens,
            compacted_tokens: original_tokens,
            turns_removed: 0,
            summary: String::new(),
        };
    }
    let ghost before = *conversation;
    let total_turns = conversation.turns.len();
    let k = total_turns - config.keep_recent_turns;
    let mut old_turns = conversation.turns.split_off(k);
    std::mem::swap(&mut conversation.turns, &mut old_turns);
    assert(old_turns@ == before.turns@.take(k as int));
    assert(conversation.turns@ == before.turns@.skip(k as int));
    let summary = build_summary(&old_turns, config.summary_max_tokens);
    let mut summary_turn = Turn::new("");
    let tokens = estimate_str_tokens(summary.as_str());
    summary_turn.assistant_response = summary.clone();
    summary_turn.complete();
    let out: u32 = #[verifier::truncate] (tokens as u32);
    summary_turn.tokens_used = Some(TokenUsage::new(0, out));
    let ghost st = summary_turn;
    conversation.turns.insert(0, summary_turn);
    conversation.updated_at = crate::clock::now_millis();
    proof {
        let after = conversation.turns@;
        assert(after == seq![st] + before.turns@.skip(k as int));
        lemma_turns_tokens_concat(seq![st], before.turns@.skip(k as int));
        assert(seq![st].drop_last() =~= Seq::<Turn>::empty());
        assert(turns_tokens(Seq::<Turn>::empty()) == 0);
        assert(seq![st].last() == st);
        assert(turns_tokens(seq![st]) == turns_tokens(seq![st].drop_last()) + turn_tokens(st));
        assert(turns_tokens(seq![st]) == turn_tokens(st));
        assert(calls_tokens(st.tool_calls@) == 0);
        assert(results_tokens(st.tool_results@) == 0);
        assert(after.skip(1) =~= before.turns@.skip(k as int));
    }
    let compacted_tokens = estimate_tokens(conversation);
    proof {
        reveal_strlit("");
        assert(conversation.turns@[0] == st);
        assert(st.user_message@.len() == 0);
        assert(st.assistant_response@ == summary@);
        assert(summary@ == compaction_summary(before, *config));
        assert(st.tokens_used == Some(
            TokenUsage { input: 0, output: str_tokens(summary@) as u32, total: str_tokens(summary@) as u32 },
        ));
    }
    CompactionResult { original_tokens, compacted_tokens, turns_removed: k, summary }
}

} // verus!
