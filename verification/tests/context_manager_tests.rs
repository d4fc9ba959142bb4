use ember::context_manager::{
    ContextConfig, ContextManager, ContextManagerBuilder, MessageMetadata, MessageRole,
    PruningStrategy, TokenCount, TokenEstimation,
};

fn small(max: usize, resp: usize, sys: usize, keep: usize, strategy: PruningStrategy) -> ContextConfig {
    ContextConfig {
        max_tokens: max,
        reserved_response_tokens: resp,
        reserved_system_tokens: sys,
        preserve_recent_count: keep,
        pruning_strategy: strategy,
        ..Default::default()
    }
}

#[test]
fn context_manager_test_add_messages() {
    let mut manager = ContextManager::new();
    manager.set_system_prompt("You are a helpful assistant.");
    manager.add_message(MessageRole::User, "Hello");
    manager.add_message(MessageRole::Assistant, "Hi there!");
    assert_eq!(manager.message_count(), 2);
    assert!(manager.get_token_usage().total > 0);
    // 28 bytes of prompt → 7 tokens; "Hello" → 2; "Hi there!" → 3.
    assert_eq!(manager.get_token_usage().system, 7);
    assert_eq!(manager.get_token_usage().user, 2);
    assert_eq!(manager.get_token_usage().assistant, 3);
    assert_eq!(manager.get_token_usage().total, 5);
    assert_eq!(manager.available_tokens(), 128_000 - 4096 - 2000 - 5);
}

#[test]
fn test_token_estimation() {
    let manager = ContextManager::new();
    let tokens = manager.estimate_tokens("Hello, how are you?");
    assert!(tokens >= 4 && tokens <= 6);
    assert_eq!(tokens, 5);
    assert_eq!(manager.estimate_tokens(""), 0);
    assert_eq!(manager.estimate_tokens("abcd"), 1);
    let custom = ContextManager::with_config(ContextConfig {
        token_estimation: TokenEstimation::Custom { chars_per_token_milli: 2500 },
        ..Default::default()
    });
    assert_eq!(custom.estimate_tokens("abcdefghij"), 4);
    assert_eq!(custom.estimate_tokens("abcde"), 2);
}

#[test]
fn test_pruning() {
    let mut manager = ContextManager::with_config(small(100, 20, 20, 2, PruningStrategy::SlidingWindow));
    for i in 0..20 {
        manager.add_message(MessageRole::User, &format!("Message {}", i));
    }
    assert!(manager.get_stats().messages_pruned > 0);
    assert!(manager.message_count() < 20);
    assert!(!manager.needs_pruning());
    // The newest messages survive.
    let last = manager.get_messages().last().unwrap();
    assert_eq!(last.content, "Message 19");
}

#[test]
fn test_pinned_messages() {
    let mut manager = ContextManager::with_config(small(50, 10, 10, 1, PruningStrategy::SlidingWindow));
    manager.add_message(MessageRole::User, "Important message");
    manager.pin_message(0);
    for i in 0..10 {
        manager.add_message(MessageRole::User, &format!("Message {}", i));
    }
    let messages = manager.get_messages();
    assert!(messages.iter().any(|m| m.pinned && m.index == 0));
}

#[test]
fn test_builder() {
    let manager = ContextManagerBuilder::new()
        .max_tokens(50000)
        .pruning_strategy(PruningStrategy::PriorityBased)
        .system_prompt("Test prompt")
        .build();
    assert_eq!(manager.config().max_tokens, 50000);
    assert_eq!(manager.config().pruning_strategy, PruningStrategy::PriorityBased);
    assert!(manager.system_prompt().is_some());
}

#[test]
fn test_formatted_messages() {
    let mut manager = ContextManager::new();
    manager.set_system_prompt("System");
    manager.add_message(MessageRole::User, "User message");
    manager.add_message(MessageRole::Assistant, "Assistant message");
    let formatted = manager.get_formatted_messages();
    assert_eq!(formatted.len(), 3);
    assert_eq!(formatted[0].role, "system");
    assert_eq!(formatted[1].role, "user");
    assert_eq!(formatted[2].role, "assistant");
    assert_eq!(formatted[2].content, "Assistant message");
}

#[test]
fn priority_pruning_drops_the_lowest_priority() {
    // Budget 4 tokens; every message is 1 token.
    let mut manager = ContextManager::with_config(small(4, 0, 0, 1, PruningStrategy::PriorityBased));
    manager.add_message(MessageRole::User, "u1");
    manager.add_message(MessageRole::Tool, "t1");
    manager.add_message(MessageRole::User, "u2");
    manager.add_message(MessageRole::User, "u3");
    // The tool message has the lowest weight.
    let contents: Vec<&str> = manager.get_messages().iter().map(|m| m.content.as_str()).collect();
    assert_eq!(contents, vec!["u1", "u2", "u3"]);
    assert_eq!(manager.get_stats().messages_pruned, 1);
    assert_eq!(manager.get_stats().tokens_saved, 1);
    assert_eq!(manager.get_token_usage().tool, 0);
}

#[test]
fn summary_pruning_replaces_old_messages() {
    let mut manager = ContextManager::with_config(small(40, 0, 0, 2, PruningStrategy::Summarize));
    for i in 0..12 {
        manager.add_message(MessageRole::User, &format!("message number {i}"));
    }
    let stats = *manager.get_stats();
    assert!(stats.summaries_generated >= 1);
    let first = &manager.get_messages()[0];
    assert_eq!(first.role, MessageRole::System);
    assert!(first.pinned);
    assert!(first.content.starts_with("[Summary of previous conversation: "));
    assert!(first.metadata.as_ref().unwrap().is_summary);
}

#[test]
fn within_budget_nothing_is_pruned() {
    let mut manager = ContextManager::with_config(small(1000, 0, 0, 2, PruningStrategy::Summarize));
    manager.add_message(MessageRole::User, "a");
    manager.add_message(MessageRole::Assistant, "b");
    manager.add_message(MessageRole::Tool, "c");
    manager.add_message(MessageRole::User, "d");
    manager.add_message(MessageRole::User, "e");
    manager.add_message(MessageRole::User, "f");
    manager.add_message(MessageRole::User, "g");
    manager.add_message(MessageRole::User, "h");
    manager.add_message(MessageRole::User, "i");
    manager.add_message(MessageRole::User, "j");
    // Nothing pruned while within budget.
    assert_eq!(manager.message_count(), 10);
    assert_eq!(manager.get_stats().summaries_generated, 0);
}

#[test]
fn clear_keeps_system_count() {
    let mut manager = ContextManager::new();
    manager.set_system_prompt("12345678");
    manager.add_message_with_metadata(MessageRole::Tool, "tool output", MessageMetadata::default());
    manager.clear();
    assert_eq!(manager.message_count(), 0);
    assert_eq!(
        *manager.get_token_usage(),
        TokenCount { total: 0, system: 2, user: 0, assistant: 0, tool: 0 }
    );
    assert_eq!(manager.get_stats().messages_added, 1);
}

#[test]
fn token_count_available_saturates() {
    let cfg = small(10, 8, 8, 1, PruningStrategy::SlidingWindow);
    let tc = TokenCount { total: 3, system: 0, user: 3, assistant: 0, tool: 0 };
    assert_eq!(tc.available(&cfg), 0);
    let cfg2 = small(100, 10, 10, 1, PruningStrategy::SlidingWindow);
    assert_eq!(tc.available(&cfg2), 77);
}

#[test]
fn try_add_message_gives_back_the_newest() {
    let mut manager = ContextManager::new();
    let m = manager.try_add_message(MessageRole::User, "Hello").expect("message kept");
    assert_eq!(m.content, "Hello");
    assert_eq!(manager.message_count(), 1);
}
