use ember::conversation::{escape_html, Conversation, ExportFormat, TokenUsage};

#[test]
fn test_conversation_creation() {
    let conv = Conversation::new("You are helpful.");
    assert!(conv.is_empty());
    assert!(conv.title.is_none());
}

#[test]
fn test_turn_management() {
    let mut conv = Conversation::new("System");

    let turn = conv.start_turn("Hello!");
    turn.assistant_response = "Hi there!".to_string();
    turn.complete();

    assert_eq!(conv.len(), 1);
    assert!(conv.current_turn().unwrap().is_complete());
}

#[test]
fn test_auto_title() {
    let mut conv = Conversation::new("System");
    conv.start_turn("What is the capital of France?");

    conv.auto_title();
    assert_eq!(
        conv.title,
        Some("What is the capital of France?".to_string())
    );
}

#[test]
fn test_auto_title_truncation() {
    let mut conv = Conversation::new("System");
    conv.start_turn("This is a very long message that should be truncated because it exceeds fifty characters");

    conv.auto_title();
    assert!(conv.title.as_ref().unwrap().ends_with("..."));
    assert!(conv.title.as_ref().unwrap().len() <= 53); // 50 + "..."
}

#[test]
fn test_token_tracking() {
    let mut conv = Conversation::new("System");

    let turn1 = conv.start_turn("Hello");
    turn1.tokens_used = Some(TokenUsage::new(10, 20));
    turn1.complete();

    let turn2 = conv.start_turn("World");
    turn2.tokens_used = Some(TokenUsage::new(15, 25));
    turn2.complete();

    let total = conv.total_tokens();
    assert_eq!(total.input, 25);
    assert_eq!(total.output, 45);
    assert_eq!(total.total, 70);
}

#[test]
fn auto_title_stops_at_newline_and_keeps_existing() {
    let mut conv = Conversation::new("System");
    conv.start_turn("  First line  \nsecond line");
    conv.auto_title();
    assert_eq!(conv.title, Some(String::from("First line...")));
    conv.auto_title();
    assert_eq!(conv.title, Some(String::from("First line...")));
    let mut empty = Conversation::new("System");
    empty.auto_title();
    assert!(empty.title.is_none());
}

#[test]
fn metadata_replaces_values() {
    let conv = Conversation::new("S")
        .with_title("T")
        .with_metadata("k", "1")
        .with_metadata("j", "2")
        .with_metadata("k", "3");
    assert_eq!(conv.title, Some(String::from("T")));
    assert_eq!(
        conv.metadata,
        vec![
            (String::from("k"), String::from("3")),
            (String::from("j"), String::from("2"))
        ]
    );
}

#[test]
fn turn_failure_and_duration() {
    let mut conv = Conversation::new("S");
    let t = conv.start_turn("go");
    assert!(!t.is_complete());
    assert!(t.duration().is_none());
    t.fail("boom");
    assert!(t.has_error());
    assert!(t.is_complete());
    assert!(t.duration().unwrap() >= 0);
}

#[test]
fn html_escaping() {
    assert_eq!(
        escape_html("<a href=\"x\">Tom & Jerry's</a>"),
        "&lt;a href=&quot;x&quot;&gt;Tom &amp; Jerry&#39;s&lt;/a&gt;"
    );
    assert_eq!(escape_html("plain"), "plain");
}

#[test]
fn export_formats() {
    assert_eq!(ExportFormat::Json.extension(), "json");
    assert_eq!(ExportFormat::Markdown.extension(), "md");
    assert_eq!(ExportFormat::Html.extension(), "html");
    assert_eq!(ExportFormat::parse("JSON"), Some(ExportFormat::Json));
    assert_eq!(ExportFormat::parse("Md"), Some(ExportFormat::Markdown));
    assert_eq!(ExportFormat::parse("markdown"), Some(ExportFormat::Markdown));
    assert_eq!(ExportFormat::parse("HTML"), Some(ExportFormat::Html));
    assert_eq!(ExportFormat::parse("pdf"), None);
}
