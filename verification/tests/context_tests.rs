use ember::context::{estimate_tokens, Context, ContextManager, Message, Role};

#[test]
fn test_context_creation() {
    let ctx = Context::new("You are helpful.", 1000);
    assert!(ctx.is_empty());
    assert!(ctx.token_count() > 0);
    assert_eq!(ctx.token_count(), 4);
    assert_eq!(ctx.remaining_tokens(), 996);
    assert!(ctx.has_capacity(996));
    assert!(!ctx.has_capacity(997));
}

#[test]
fn context_test_add_messages() {
    let mut ctx = Context::new("System", 1000);
    ctx.add_user_message("Hello");
    ctx.add_assistant_message("Hi there!");
    assert_eq!(ctx.len(), 2);
    let messages = ctx.messages();
    assert_eq!(messages.len(), 3);
    assert_eq!(messages[0].role, Role::System);
    assert_eq!(messages[1].role, Role::User);
    assert_eq!(messages[2].role, Role::Assistant);
    assert_eq!(ctx.last_message().unwrap().content, "Hi there!");
    assert_eq!(ctx.last_assistant_message().unwrap().content, "Hi there!");
}

#[test]
fn test_token_trimming() {
    let mut ctx = Context::new("System", 100);
    for i in 0..50 {
        ctx.add_user_message(&format!("Message {i} with some extra text"));
    }
    assert!(ctx.token_count() <= 100);
    assert!(ctx.len() < 50);
    assert_eq!(ctx.last_message().unwrap().content, "Message 49 with some extra text");
}

#[test]
fn test_context_clear() {
    let mut ctx = Context::new("System", 1000);
    ctx.add_user_message("Hello");
    ctx.add_assistant_message("Hi!");
    let initial_tokens = estimate_tokens("System");
    ctx.clear();
    assert!(ctx.is_empty());
    assert_eq!(ctx.token_count(), initial_tokens);
}

#[test]
fn test_context_manager() {
    let manager = ContextManager::new("Default prompt", 8192);
    let ctx1 = manager.create_context();
    let ctx2 = manager.create_context_with_prompt("Custom prompt");
    assert!(ctx1.messages()[0].content.contains("Default"));
    assert!(ctx2.messages()[0].content.contains("Custom"));
    let ctx3 = manager.create_context_custom("x", 5);
    assert_eq!(ctx3.remaining_tokens(), 4);
}

#[test]
fn system_prompt_replacement_keeps_history() {
    let mut ctx = Context::new("abcd", 1000);
    ctx.add_message(Message::user("12345678"));
    assert_eq!(ctx.token_count(), 3);
    ctx.set_system_prompt("abcdefghi");
    assert_eq!(ctx.token_count(), 5);
    assert_eq!(ctx.len(), 1);
    assert_eq!(ctx.messages()[0].content, "abcdefghi");
    assert_eq!(estimate_tokens(""), 0);
}
