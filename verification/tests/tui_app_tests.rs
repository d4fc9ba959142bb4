use ember::tui_app::{App, AppState, Key, LlmRole};

fn app() -> App {
    App::new("OpenAI", "llama3", "gpt-4o", "be helpful")
}

fn type_text(a: &mut App, s: &str) {
    for c in s.chars() {
        a.handle_key(Key::Char(c), false);
    }
}

#[test]
fn new_app_picks_model_by_provider() {
    assert_eq!(app().model, "gpt-4o");
    assert_eq!(App::new("Ollama", "llama3", "gpt-4o", "").model, "llama3");
    let a = app();
    assert_eq!(a.state, AppState::Input);
    assert_eq!(a.status, "Ready");
    assert!(!a.should_quit);
}

#[test]
fn typing_and_editing_the_input() {
    let mut a = app();
    type_text(&mut a, "helo");
    assert_eq!(a.input, "helo");
    assert_eq!(a.cursor, 4);
    a.handle_key(Key::Left, false);
    a.handle_key(Key::Char('l'), false);
    assert_eq!(a.input, "hello");
    assert_eq!(a.cursor, 4);
    a.handle_key(Key::Delete, false);
    assert_eq!(a.input, "hell");
    a.handle_key(Key::Home, false);
    a.handle_key(Key::Backspace, false);
    assert_eq!(a.input, "hell");
    a.handle_key(Key::End, false);
    a.handle_key(Key::Backspace, false);
    assert_eq!(a.input, "hel");
    assert_eq!(a.cursor, 3);
    a.handle_key(Key::Right, false);
    assert_eq!(a.cursor, 3);
}

#[test]
fn enter_submits_and_waits() {
    let mut a = app();
    a.handle_key(Key::Enter, false);
    assert!(a.messages.is_empty());
    type_text(&mut a, "hi");
    a.handle_key(Key::Enter, false);
    assert_eq!(a.messages.len(), 1);
    assert_eq!(a.messages[0].role, "user");
    assert_eq!(a.messages[0].content, "hi");
    assert_eq!(a.input, "");
    assert_eq!(a.cursor, 0);
    assert_eq!(a.state, AppState::Waiting);
    assert_eq!(a.status, "Thinking...");
    // While waiting, only Ctrl+C does something.
    a.handle_key(Key::Char('x'), false);
    assert_eq!(a.input, "");
    a.handle_key(Key::Char('c'), true);
    assert_eq!(a.state, AppState::Input);
    assert_eq!(a.status, "Cancelled");
}

#[test]
fn control_keys() {
    let mut a = app();
    type_text(&mut a, "q");
    a.handle_key(Key::Enter, false);
    a.add_response("answer".to_string(), 12);
    assert_eq!(a.total_tokens, 12);
    a.handle_key(Key::Char('h'), true);
    assert_eq!(a.state, AppState::Help);
    a.handle_key(Key::Other, false);
    assert_eq!(a.state, AppState::Input);
    a.handle_key(Key::Char('l'), true);
    assert!(a.messages.is_empty());
    assert_eq!(a.total_tokens, 0);
    assert_eq!(a.status, "Cleared");
    a.handle_key(Key::Char('c'), true);
    assert!(a.should_quit);
}

#[test]
fn escape_clears_then_quits() {
    let mut a = app();
    type_text(&mut a, "abc");
    a.handle_key(Key::Esc, false);
    assert_eq!(a.input, "");
    assert!(!a.should_quit);
    a.handle_key(Key::Esc, false);
    assert!(a.should_quit);
}

#[test]
fn scrolling_is_bounded() {
    let mut a = app();
    for i in 0..3 {
        type_text(&mut a, &format!("m{i}"));
        a.handle_key(Key::Enter, false);
        a.add_response("r".to_string(), 1);
    }
    assert_eq!(a.messages.len(), 6);
    for _ in 0..10 {
        a.handle_key(Key::Up, false);
    }
    assert_eq!(a.scroll, 5);
    a.handle_key(Key::Down, false);
    assert_eq!(a.scroll, 4);
    for _ in 0..10 {
        a.handle_key(Key::Down, false);
    }
    assert_eq!(a.scroll, 0);
}

#[test]
fn paste_cleans_control_characters() {
    let mut a = app();
    type_text(&mut a, "ab");
    a.handle_key(Key::Left, false);
    a.handle_paste("x\ny\r\u{7}z");
    assert_eq!(a.input, "ax y zb");
    assert_eq!(a.cursor, 6);
    a.state = AppState::Waiting;
    a.handle_paste("ignored");
    assert_eq!(a.input, "ax y zb");
}

#[test]
fn last_user_message_and_history() {
    let mut a = app();
    assert_eq!(a.last_user_message(), None);
    type_text(&mut a, "first");
    a.handle_key(Key::Enter, false);
    a.add_response("reply".to_string(), 3);
    assert_eq!(a.last_user_message(), Some("first"));
    let msgs = a.build_messages();
    assert_eq!(
        msgs,
        vec![
            (LlmRole::System, "be helpful".to_string()),
            (LlmRole::User, "first".to_string()),
            (LlmRole::Assistant, "reply".to_string()),
        ]
    );
}

#[test]
fn errors_return_to_input() {
    let mut a = app();
    type_text(&mut a, "q");
    a.handle_key(Key::Enter, false);
    a.set_error("timeout");
    assert_eq!(a.status, "Error: timeout");
    assert_eq!(a.state, AppState::Input);
}
