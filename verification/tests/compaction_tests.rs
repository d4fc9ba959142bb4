use ember::compaction::{
    build_summary, compact_conversation, estimate_str_tokens, estimate_tokens, should_compact,
    CompactionConfig,
};
use ember::conversation::{Conversation, Turn};

/// The token limit a share of the context represents.
fn limit(max_tokens: usize, threshold: f64) -> usize {
    (max_tokens as f64 * threshold) as usize
}

/// A configuration from the context size and the share that triggers compaction.
fn config(max: usize, threshold: f64, keep: usize, summary: usize) -> CompactionConfig {
    CompactionConfig {
        max_context_tokens: max,
        compact_at_tokens: limit(max, threshold),
        keep_recent_turns: keep,
        summary_max_tokens: summary,
    }
}

/// Build a conversation with `n` turns, each carrying ~`chars_per_turn`
/// characters of content so token counts are predictable.
fn make_conversation(n: usize, chars_per_turn: usize) -> Conversation {
    let mut conv = Conversation::new("You are a test assistant.");
    for i in 0..n {
        let msg = "x".repeat(chars_per_turn);
        let turn = conv.start_turn(&format!("User turn {} — {}", i, msg));
        turn.assistant_response = format!("Assistant turn {} — {}", i, msg);
        turn.complete();
    }
    conv
}

#[test]
fn test_estimate_tokens_empty() {
    let conv = Conversation::new("");
    assert_eq!(estimate_tokens(&conv), 0);
}

#[test]
fn test_estimate_tokens_counts_system_prompt() {
    let conv = Conversation::new("abcd"); // exactly 4 chars → 1 token
    assert_eq!(estimate_tokens(&conv), 1);
}

#[test]
fn test_estimate_tokens_counts_turns() {
    let mut conv = Conversation::new("");
    let turn = conv.start_turn("aaaa"); // 4 chars → 1 token
    turn.assistant_response = "bbbbbbbb".to_string(); // 8 chars → 2 tokens
    turn.complete();
    // total = 0 (system) + 1 (user) + 2 (assistant) = 3
    assert_eq!(estimate_tokens(&conv), 3);
}

#[test]
fn test_should_compact_below_threshold() {
    let conv = make_conversation(5, 8);
    assert!(!should_compact(&conv, limit(10_000, 0.8)));
}

#[test]
fn test_should_compact_above_threshold() {
    let conv = make_conversation(20, 400);
    assert!(should_compact(&conv, limit(1_000, 0.8)));
}

#[test]
fn test_should_compact_at_exact_threshold() {
    let conv = Conversation::new(&"a".repeat(4_000));
    assert!(should_compact(&conv, limit(1_000, 1.0)));
}

#[test]
fn test_compact_noop_when_below_threshold() {
    let mut conv = make_conversation(2, 8);
    let config = config(1_000_000, 0.8, 4, 500);
    let result = compact_conversation(&mut conv, &config);

    assert_eq!(result.turns_removed, 0);
    assert!(result.summary.is_empty());
    assert_eq!(result.original_tokens, result.compacted_tokens);
    assert_eq!(conv.turns.len(), 2); // unchanged
}

#[test]
fn test_compact_noop_when_all_turns_recent() {
    let mut conv = make_conversation(3, 2_000);
    let config = config(100, 0.01, 3, 500);
    let result = compact_conversation(&mut conv, &config);

    assert_eq!(result.turns_removed, 0);
    assert_eq!(conv.turns.len(), 3);
}

#[test]
fn test_compact_removes_old_turns() {
    let mut conv = make_conversation(10, 400);
    let config = config(1_000, 0.01, 4, 500);

    let result = compact_conversation(&mut conv, &config);

    assert_eq!(result.turns_removed, 6);
    assert_eq!(conv.turns.len(), 5); // 4 recent + 1 summary
}

#[test]
fn test_compact_keeps_recent_turns_intact() {
    let mut conv = make_conversation(8, 400);
    let config = config(1_000, 0.01, 3, 500);

    let original_recent: Vec<String> = conv.turns[5..]
        .iter()
        .map(|t| t.user_message.clone())
        .collect();

    compact_conversation(&mut conv, &config);

    let preserved: Vec<String> = conv.turns[1..]
        .iter()
        .map(|t| t.user_message.clone())
        .collect();

    assert_eq!(preserved, original_recent);
}

#[test]
fn test_compact_summary_turn_is_first() {
    let mut conv = make_conversation(6, 400);
    let config = config(1_000, 0.01, 2, 500);

    let result = compact_conversation(&mut conv, &config);

    let first = conv.turns.first().unwrap();
    assert!(!first.assistant_response.is_empty());
    assert_eq!(first.assistant_response, result.summary);
    assert!(first.user_message.is_empty());
}

#[test]
fn test_compact_summary_is_non_empty() {
    let mut conv = make_conversation(6, 400);
    let config = config(1_000, 0.01, 2, 500);

    let result = compact_conversation(&mut conv, &config);

    assert!(!result.summary.is_empty());
    assert!(result.summary.contains("summary"));
}

#[test]
fn test_compact_reduces_token_count() {
    let mut conv = make_conversation(20, 400);
    let config = config(1_000, 0.01, 4, 200);

    let result = compact_conversation(&mut conv, &config);

    assert!(result.compacted_tokens < result.original_tokens);
}

#[test]
fn test_compact_result_metrics_consistent() {
    let mut conv = make_conversation(10, 400);
    let config = config(1_000, 0.01, 4, 300);

    let result = compact_conversation(&mut conv, &config);

    assert_eq!(result.compacted_tokens, estimate_tokens(&conv));
}

#[test]
fn test_default_config_values() {
    let cfg = CompactionConfig::default();
    assert_eq!(cfg.max_context_tokens, 100_000);
    assert_eq!(cfg.compact_at_tokens, limit(100_000, 0.8));
    assert_eq!(cfg.keep_recent_turns, 4);
    assert_eq!(cfg.summary_max_tokens, 2_000);
}

#[test]
fn test_default_config_no_compact_on_short_conv() {
    let conv = make_conversation(3, 100);
    let cfg = CompactionConfig::default();
    assert!(!cfg.should_compact(&conv));
}

#[test]
fn test_build_summary_respects_token_budget() {
    let mut conv = make_conversation(50, 200);
    let turns: Vec<Turn> = conv.turns.drain(..).collect();

    let max_tokens = 50; // tight budget
    let summary = build_summary(&turns, max_tokens);
    let estimated = estimate_str_tokens(&summary);

    assert!(estimated <= max_tokens + 20);
}

#[test]
fn test_build_summary_contains_turn_count() {
    let mut conv = make_conversation(3, 20);
    let turns: Vec<Turn> = conv.turns.drain(..).collect();
    let summary = build_summary(&turns, 1_000);
    assert!(summary.contains("3"));
}

#[test]
fn summary_text_exact() {
    let mut t1 = Turn::new("hi");
    t1.assistant_response = String::from("hello");
    let t2 = Turn::new("bye");
    let s = build_summary(&[t1, t2], 1_000);
    assert_eq!(
        s,
        "[Conversation summary — 2 earlier turn(s)]\nTurn 1: User: hi\nTurn 1: Assistant: hello\nTurn 2: User: bye\n"
    );
    let tight = build_summary(&[Turn::new("a long message here")], 12);
    assert_eq!(
        tight,
        "[Conversation summary — 1 earlier turn(s)]\n[… 1 turn(s) omitted due to summary length limit]\n"
    );
    assert_eq!(estimate_str_tokens("é"), 1);
    assert_eq!(estimate_str_tokens("abcde"), 2);
}
