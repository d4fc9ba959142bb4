use ember::checkpoint::{Checkpoint, CheckpointConfig, CheckpointManager};
use ember::context::Context;
use ember::conversation::Conversation;

fn create_test_context() -> Context {
    let mut context = Context::new("Test system prompt", 4096);
    context.add_user_message("Hello");
    context.add_assistant_message("Hi there!");
    context
}

#[test]
fn test_checkpoint_creation() {
    let checkpoint = Checkpoint::new();
    assert!(checkpoint.name.is_none());
    assert!(!checkpoint.auto_created);
}

#[test]
fn test_named_checkpoint() {
    let checkpoint = Checkpoint::with_name("Before refactor")
        .description("Saving state before major changes")
        .tag("important");
    assert_eq!(checkpoint.name, Some("Before refactor".to_string()));
    assert!(checkpoint.tags.contains(&"important".to_string()));
    assert_eq!(checkpoint.display_name(), "Before refactor");
}

#[test]
fn test_checkpoint_manager() {
    let mut manager = CheckpointManager::new();
    let context = create_test_context();
    let id = manager.create_checkpoint(&context, None);
    assert_eq!(manager.len(), 1);
    assert!(manager.get(&id).is_some());
    assert_eq!(manager.latest().unwrap().id, id);
}

#[test]
fn test_checkpoint_limit() {
    let config = CheckpointConfig { max_checkpoints: 3, ..Default::default() };
    let mut manager = CheckpointManager::with_config(config);
    let context = create_test_context();
    for _ in 0..5 {
        manager.create_checkpoint(&context, None);
    }
    assert_eq!(manager.len(), 3);
}

#[test]
fn limit_spares_preserved_checkpoints() {
    let config = CheckpointConfig { max_checkpoints: 2, ..Default::default() };
    let mut manager = CheckpointManager::with_config(config);
    let context = create_test_context();
    let kept = manager.create_named_checkpoint("keep", &context, None);
    manager.create_checkpoint(&context, None);
    let last = manager.create_checkpoint(&context, None);
    assert_eq!(manager.len(), 2);
    assert!(manager.get(&kept).is_some());
    assert_eq!(manager.get_from_latest(0).unwrap().id, last);
    assert_eq!(manager.get_from_latest(1).unwrap().id, kept);
    assert!(manager.get_from_latest(2).is_none());
    assert_eq!(manager.list()[0].id, last);
}

#[test]
fn test_checkpoint_restore() {
    let mut manager = CheckpointManager::new();
    let context = create_test_context();
    let id = manager.create_checkpoint(&context, None);
    let (messages, conversation) = manager.restore(&id).unwrap();
    assert!(!messages.is_empty());
    assert_eq!(messages.len(), 3);
    assert!(conversation.is_none());
    assert!(manager.restore("nope").is_err());
}

#[test]
fn test_auto_checkpoint_trigger() {
    let config = CheckpointConfig { auto_checkpoint_interval: Some(3), ..Default::default() };
    let mut manager = CheckpointManager::with_config(config);
    assert!(!manager.tick_turn());
    assert!(!manager.tick_turn());
    assert!(manager.tick_turn());
    assert!(!manager.tick_turn());
    assert!(manager.should_checkpoint_before_tool());
}

#[test]
fn test_checkpoint_age() {
    let checkpoint = Checkpoint::new();
    let age = checkpoint.age();
    assert!(age.contains("seconds"));
    let cp = Checkpoint::new_at(0);
    assert_eq!(cp.age_at(59_999), "59 seconds ago");
    assert_eq!(cp.age_at(60_000), "1 minutes ago");
    assert_eq!(cp.age_at(7_200_000), "2 hours ago");
    assert_eq!(cp.age_at(3 * 86_400_000), "3 days ago");
    assert_eq!(cp.age_at(-5_000), "-5 seconds ago");
    assert_eq!(cp.display_name(), "Checkpoint 1970-01-01 00:00:00");
}

#[test]
fn test_find_by_tag() {
    let mut manager = CheckpointManager::new();
    let context = create_test_context();
    manager.create_named_checkpoint("Test 1", &context, None);
    let found = manager.find_by_tag("manual");
    assert_eq!(found.len(), 1);
}

#[test]
fn test_delete_checkpoint() {
    let mut manager = CheckpointManager::new();
    let context = create_test_context();
    let id = manager.create_checkpoint(&context, None);
    assert_eq!(manager.len(), 1);
    assert!(manager.delete(&id));
    assert_eq!(manager.len(), 0);
    assert!(!manager.delete(&id));
}

#[test]
fn summary_lists_recent_checkpoints() {
    let mut manager = CheckpointManager::new();
    let context = create_test_context();
    manager.create_named_checkpoint("First", &context, None);
    let s = manager.summary();
    assert!(s.starts_with("Checkpoints: 1\nMax: 50\n\n1. First - "));
    assert!(s.contains("tokens)"));
}

#[test]
fn summary_at_gives_the_exact_text() {
    let mut manager = CheckpointManager::new();
    let context = create_test_context();
    manager.create_named_checkpoint("First", &context, None);
    let (ts, tokens) = {
        let cps = manager.list();
        (cps[0].timestamp, cps[0].token_count)
    };
    let s = manager.summary_at(ts + 5_000);
    assert_eq!(
        s,
        format!("Checkpoints: 1\nMax: 50\n\n1. First - 5 seconds ago ({} tokens)\n", tokens)
    );
}

#[test]
fn find_by_tag_keeps_order_and_skips_others() {
    let mut manager = CheckpointManager::new();
    let context = create_test_context();
    manager.create_named_checkpoint("A", &context, None);
    manager.create_checkpoint(&context, None);
    manager.create_named_checkpoint("B", &context, None);
    let found = manager.find_by_tag("manual");
    assert_eq!(found.len(), 2);
    assert_eq!(found[0].name.as_deref(), Some("A"));
    assert_eq!(found[1].name.as_deref(), Some("B"));
}

#[test]
fn a_checkpoint_keeps_a_copy_of_the_conversation() {
    let context = Context::new("sys", 4096);
    let mut conversation = Conversation::new("be brief").with_title("Plans");
    conversation.start_turn("hello");
    let mut manager = CheckpointManager::new();
    let id = manager.create_checkpoint(&context, Some(&conversation));
    let (_, restored) = manager.restore(&id).unwrap();
    let restored = restored.unwrap();
    assert_eq!(restored.id, conversation.id);
    assert_eq!(restored.title.as_deref(), Some("Plans"));
    assert_eq!(restored.system_prompt, "be brief");
    assert_eq!(restored.turns.len(), 1);
    assert_eq!(restored.turns[0].user_message, "hello");
    let bare = manager.create_checkpoint(&context, None);
    assert!(manager.restore(&bare).unwrap().1.is_none());
}
