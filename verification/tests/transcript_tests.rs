use ember::context::Role;
use ember::conversation::{Conversation, ExportFormat, ToolCall, ToolResult, TokenUsage};
use ember::transcript::ConversationExport;

#[test]
fn test_to_messages() {
    let mut conv = Conversation::new("System prompt");

    let turn = conv.start_turn("Hello");
    turn.assistant_response = "Hi!".to_string();
    turn.complete();

    let messages = conv.to_messages();
    assert_eq!(messages.len(), 3); // System + User + Assistant
    assert!(matches!(messages[0].role, Role::System));
    assert!(matches!(messages[1].role, Role::User));
    assert!(matches!(messages[2].role, Role::Assistant));
}

fn conversation_with_tool() -> Conversation {
    let mut conv = Conversation::new("Be brief.");
    let turn = conv.start_turn("List files");
    turn.add_tool_call(ToolCall {
        id: "call_1".to_string(),
        name: "ls".to_string(),
        arguments: "{\"path\":\".\"}".to_string(),
    });
    turn.add_tool_result(ToolResult {
        tool_call_id: "call_1".to_string(),
        output: "a.rs\nb.rs".to_string(),
    });
    // A call without a result is left out.
    turn.add_tool_call(ToolCall {
        id: "call_2".to_string(),
        name: "cat".to_string(),
        arguments: "{}".to_string(),
    });
    turn.assistant_response = "Two files.".to_string();
    turn.tokens_used = Some(TokenUsage::new(7, 5));
    turn.complete();
    conv.start_turn("Thanks");
    conv
}

#[test]
fn to_messages_pairs_calls_with_results() {
    let conv = conversation_with_tool();
    let messages = conv.to_messages();
    assert_eq!(messages.len(), 6);
    assert!(matches!(messages[0].role, Role::System));
    assert_eq!(messages[0].content, "Be brief.");
    assert!(matches!(messages[1].role, Role::User));
    assert_eq!(messages[1].content, "List files");
    assert!(matches!(messages[2].role, Role::Assistant));
    assert_eq!(messages[2].content, "");
    assert_eq!(messages[2].tool_calls.len(), 1);
    assert_eq!(messages[2].tool_calls[0].name, "ls");
    assert!(matches!(messages[3].role, Role::Tool));
    assert_eq!(messages[3].content, "a.rs\nb.rs");
    assert_eq!(messages[3].tool_call_id.as_deref(), Some("call_1"));
    assert_eq!(messages[3].name.as_deref(), Some("ls"));
    assert!(matches!(messages[4].role, Role::Assistant));
    assert_eq!(messages[4].content, "Two files.");
    // The unanswered second turn has no assistant message.
    assert!(matches!(messages[5].role, Role::User));
    assert_eq!(messages[5].content, "Thanks");
}

#[test]
fn export_records_messages_calls_and_metadata() {
    let conv = conversation_with_tool();
    let export = ConversationExport::from_conversation_at(&conv, Some("openai"), Some("gpt-4"), 1_700_000_000_000);
    assert_eq!(export.metadata.exported_at, 1_700_000_000_000);
    assert_eq!(export.metadata.created_at, conv.created_at);
    assert_eq!(export.metadata.conversation_id, conv.id.0);
    assert_eq!(export.metadata.provider.as_deref(), Some("openai"));
    assert_eq!(export.metadata.model.as_deref(), Some("gpt-4"));
    assert_eq!(export.metadata.title, None);
    assert_eq!(export.metadata.total_tokens, 12);
    assert_eq!(export.metadata.turn_count, 2);

    assert_eq!(export.messages.len(), 4);
    assert_eq!(export.messages[0].role, "system");
    assert_eq!(export.messages[0].content, "Be brief.");
    assert_eq!(export.messages[0].timestamp, conv.created_at);
    assert_eq!(export.messages[1].role, "user");
    assert_eq!(export.messages[1].timestamp, conv.turns[0].started_at);
    assert_eq!(export.messages[2].role, "assistant");
    assert_eq!(export.messages[2].content, "Two files.");
    assert_eq!(Some(export.messages[2].timestamp), conv.turns[0].completed_at);
    assert_eq!(export.messages[3].role, "user");
    assert_eq!(export.messages[3].content, "Thanks");

    assert_eq!(export.tool_calls.len(), 1);
    assert_eq!(export.tool_calls[0].name, "ls");
    assert_eq!(export.tool_calls[0].arguments, "{\"path\":\".\"}");
    assert_eq!(export.tool_calls[0].result.as_deref(), Some("a.rs\nb.rs"));
    assert_eq!(export.tool_calls[0].timestamp, conv.turns[0].started_at);
}

#[test]
fn export_now_has_no_provider_when_none_given() {
    let conv = Conversation::new("S").with_title("Geography Questions");
    let export = ConversationExport::from_conversation(&conv, None, None);
    assert!(export.metadata.exported_at >= conv.created_at);
    assert_eq!(export.metadata.provider, None);
    assert_eq!(export.metadata.model, None);
    assert_eq!(export.metadata.title.as_deref(), Some("Geography Questions"));
    assert_eq!(export.metadata.turn_count, 0);
    assert_eq!(export.messages.len(), 1);
    assert!(export.tool_calls.is_empty());
}

#[test]
fn conversation_id_from_uuid_is_its_text() {
    let u = uuid::Uuid::parse_str("550e8400-e29b-41d4-a716-446655440000").unwrap();
    let id = ember::conversation::ConversationId::from_uuid(u);
    assert_eq!(id.0, "550e8400-e29b-41d4-a716-446655440000");
}

#[test]
fn current_turn_mut_changes_the_last_turn() {
    let mut conv = Conversation::new("S");
    assert!(conv.current_turn_mut().is_none());
    conv.start_turn("one");
    conv.start_turn("two");
    if let Some(t) = conv.current_turn_mut() {
        t.assistant_response = "answer".to_string();
    }
    assert_eq!(conv.turns[0].assistant_response, "");
    assert_eq!(conv.turns[1].assistant_response, "answer");
    assert_eq!(conv.turns.len(), 2);
}

#[test]
fn export_format_parses_its_extension_in_any_case() {
    for f in [ExportFormat::Json, ExportFormat::Markdown, ExportFormat::Html] {
        assert_eq!(ExportFormat::parse(f.extension()), Some(f));
        assert_eq!(ExportFormat::parse(&f.extension().to_uppercase()), Some(f));
    }
    assert_eq!(ExportFormat::parse("markdown"), Some(ExportFormat::Markdown));
    assert_eq!(ExportFormat::parse("pdf"), None);
}
