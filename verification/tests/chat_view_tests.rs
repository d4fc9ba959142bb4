use ember::chat_view::{chat_lines, chat_scroll_offset, ChatSpan, ChatStyle};
use ember::tui_app::{App, AppState, ChatMessage};

fn texts(line: &[ChatSpan]) -> Vec<(&str, ChatStyle)> {
    line.iter().map(|s| (s.text.as_str(), s.style)).collect()
}

fn app_with(messages: Vec<ChatMessage>, state: AppState) -> App {
    let mut a = App::new("ollama", "llama3", "gpt-4", "sys");
    a.messages = messages;
    a.state = state;
    a
}

#[test]
fn chat_lines_wrap_messages_under_headers() {
    let a = app_with(
        vec![
            ChatMessage { role: "user".to_string(), content: "hello there world".to_string(), tokens: None },
            ChatMessage { role: "assistant".to_string(), content: "hi".to_string(), tokens: Some(42) },
        ],
        AppState::Input,
    );
    // A panel 17 columns wide wraps text to 11 columns.
    let lines = chat_lines(&a, 17);
    assert_eq!(lines.len(), 8);
    assert_eq!(texts(&lines[0]), vec![(" >> ", ChatStyle::UserHeader), ("you", ChatStyle::UserHeader)]);
    assert_eq!(texts(&lines[1]), vec![("    │ ", ChatStyle::UserGutter), ("hello there", ChatStyle::Plain)]);
    assert_eq!(texts(&lines[2]), vec![("    │ ", ChatStyle::UserGutter), ("world", ChatStyle::Plain)]);
    assert!(lines[3].is_empty());
    assert_eq!(texts(&lines[4]), vec![(" << ", ChatStyle::AssistantHeader), ("ember", ChatStyle::AssistantHeader)]);
    assert_eq!(texts(&lines[5]), vec![("    │ ", ChatStyle::AssistantGutter), ("hi", ChatStyle::Plain)]);
    assert_eq!(texts(&lines[6]), vec![("    ", ChatStyle::Plain), ("[42 tokens]", ChatStyle::Muted)]);
    assert!(lines[7].is_empty());
}

#[test]
fn chat_lines_show_thinking_while_waiting() {
    let a = app_with(
        vec![ChatMessage { role: "other".to_string(), content: "x".to_string(), tokens: None }],
        AppState::Waiting,
    );
    let lines = chat_lines(&a, 3);
    assert_eq!(lines.len(), 3);
    assert!(lines[0].is_empty());
    assert_eq!(texts(&lines[1]), vec![(" thinking ...", ChatStyle::Thinking)]);
}

#[test]
fn chat_scrolls_to_the_last_lines() {
    assert_eq!(chat_scroll_offset(30, 10), 20);
    assert_eq!(chat_scroll_offset(5, 10), 0);
    assert_eq!(chat_scroll_offset(65536 + 12, 10), 2);
}
