use crossterm::style::{Color, ResetColor, SetForegroundColor};
use crossterm::Command;
use ember::renderer::{
    heading_prefix, ColorTheme, MdEvent, RenderAction, Spinner, TermColor, TerminalRenderer,
};

fn to_crossterm(c: TermColor) -> Color {
    match c {
        TermColor::Reset => Color::Reset,
        TermColor::Black => Color::Black,
        TermColor::DarkGrey => Color::DarkGrey,
        TermColor::Red => Color::Red,
        TermColor::DarkRed => Color::DarkRed,
        TermColor::Green => Color::Green,
        TermColor::DarkGreen => Color::DarkGreen,
        TermColor::Yellow => Color::Yellow,
        TermColor::DarkYellow => Color::DarkYellow,
        TermColor::Blue => Color::Blue,
        TermColor::DarkBlue => Color::DarkBlue,
        TermColor::Magenta => Color::Magenta,
        TermColor::DarkMagenta => Color::DarkMagenta,
        TermColor::Cyan => Color::Cyan,
        TermColor::DarkCyan => Color::DarkCyan,
        TermColor::White => Color::White,
        TermColor::Grey => Color::Grey,
        TermColor::Rgb(r, g, b) => Color::Rgb { r, g, b },
        TermColor::AnsiValue(v) => Color::AnsiValue(v),
    }
}

/// Performs drawing actions into a string, with ANSI escapes for colors.
fn perform(actions: &[RenderAction]) -> String {
    let mut out = String::new();
    for a in actions {
        match a {
            RenderAction::Write(s) => out.push_str(s),
            RenderAction::SetColor(c) => SetForegroundColor(to_crossterm(*c)).write_ansi(&mut out).unwrap(),
            RenderAction::ResetColor => ResetColor.write_ansi(&mut out).unwrap(),
            RenderAction::LineStart => out.push('\r'),
            RenderAction::CodeBlock(code, lang) => {
                out.push_str(lang);
                out.push_str(code);
            }
            RenderAction::Rule => out.push_str("---"),
        }
    }
    out
}

fn writes(actions: &[RenderAction]) -> String {
    actions
        .iter()
        .filter_map(|a| match a {
            RenderAction::Write(s) => Some(s.as_str()),
            _ => None,
        })
        .collect()
}

#[test]
fn color_theme_default_values_set() {
    let t = ColorTheme::default();
    assert_ne!(t.heading, TermColor::Reset);
    assert_ne!(t.emphasis, TermColor::Reset);
    assert_ne!(t.strong, TermColor::Reset);
    assert_ne!(t.inline_code, TermColor::Reset);
    assert_ne!(t.link, TermColor::Reset);
    assert_ne!(t.quote, TermColor::Reset);
    assert_ne!(t.code_block_border, TermColor::Reset);
    assert_ne!(t.spinner_active, TermColor::Reset);
    assert_ne!(t.spinner_done, TermColor::Reset);
}

#[test]
fn terminal_renderer_creation() {
    let r = TerminalRenderer::new();
    assert!(r.terminal_width > 0);
}

#[test]
fn terminal_renderer_with_custom_theme() {
    let mut theme = ColorTheme::default();
    theme.heading = TermColor::Magenta;
    let r = TerminalRenderer::with_theme(theme);
    assert_eq!(r.theme.heading, TermColor::Magenta);
}

#[test]
fn spinner_tick_advances_frame() {
    let mut s = Spinner::new("loading");
    let before = s.frame_index;
    s.frame_index = s.frame_index.wrapping_add(1);
    assert_eq!(s.frame_index, before + 1);
}

#[test]
fn spinner_frames_cycle() {
    let s = Spinner::new("test");
    let n = s.frames.len();
    assert_eq!(n, 10);
    for i in 0..n * 2 {
        let frame = s.frames[i % n];
        assert!(!frame.is_empty(), "frame {i} is empty");
    }
}

#[test]
fn render_heading_produces_colored_output() {
    let renderer = TerminalRenderer::new();
    let output = perform(&renderer.heading_actions(1, "Hello World"));
    assert!(output.contains("Hello World"), "heading text missing");
    assert!(output.contains("# "), "heading prefix missing");
    assert!(output.contains('\x1b'), "expected ANSI escape codes in output");
}

#[test]
fn render_code_block_produces_bordered_output() {
    let renderer = TerminalRenderer::new();
    let actions = renderer
        .code_block_actions("fn main() {}\n", "rust")
        .expect("highlighting failed");
    let output = perform(&actions);
    assert!(output.contains("rust"), "language tag missing from border");
    assert!(output.contains('┌'), "top border missing");
    assert!(output.contains('└'), "bottom border missing");
    assert!(output.contains("main"), "code missing");
    assert!(output.contains("\x1b[38;2;"), "expected 24-bit highlighting escapes");
}

#[test]
fn code_block_lines_end_with_a_reset() {
    let renderer = TerminalRenderer::with_theme_and_width(ColorTheme::default(), 12);
    let actions = renderer.code_block_actions("a\nb\n", "").expect("highlighting failed");
    assert_eq!(actions.len(), 3 + 2 * 2 + 3);
    assert_eq!(actions[1], RenderAction::Write("┌──────────┐\n".to_string()));
    assert_eq!(actions[4], RenderAction::ResetColor);
    assert_eq!(actions[6], RenderAction::ResetColor);
    assert_eq!(actions[8], RenderAction::Write("\n└──────────┘\n".to_string()));
    assert!(writes(&actions).contains("a\n"));
}

#[test]
fn markdown_text_is_parsed_and_drawn() {
    let renderer = TerminalRenderer::with_theme_and_width(ColorTheme::default(), 20);
    let actions = renderer.render_markdown_actions("# Title\n\nUse `x` here.\n\n```rust\nlet a = 1;\n```\n");
    assert_eq!(writes(&actions), "\n# Title\nUse `x` here.\n\n");
    assert!(actions.contains(&RenderAction::CodeBlock("let a = 1;\n".to_string(), "rust".to_string())));
}

#[test]
fn code_block_borders_fill_the_width() {
    let renderer = TerminalRenderer::with_theme_and_width(ColorTheme::default(), 12);
    assert_eq!(renderer.code_block_top(""), "┌──────────┐\n");
    assert_eq!(renderer.code_block_top("rs"), "┌─ rs ──────┐\n");
    assert_eq!(renderer.code_block_bottom(), "\n└──────────┘\n");
    assert_eq!(renderer.code_block_top("a-very-long-language"), "┌─ a-very-long-language ┐\n");
    let tiny = TerminalRenderer::with_theme_and_width(ColorTheme::default(), 1);
    assert_eq!(tiny.code_block_top(""), "┌┐\n");
}

#[test]
fn rule_spans_the_terminal() {
    let renderer = TerminalRenderer::with_theme_and_width(ColorTheme::default(), 3);
    let actions = renderer.rule_actions();
    assert_eq!(actions[0], RenderAction::SetColor(TermColor::DarkGrey));
    assert_eq!(writes(&actions), "───\n");
    assert_eq!(actions[2], RenderAction::ResetColor);
}

#[test]
fn heading_prefixes_by_level() {
    assert_eq!(heading_prefix(1), "# ");
    assert_eq!(heading_prefix(3), "### ");
    assert_eq!(heading_prefix(6), "###### ");
    assert_eq!(heading_prefix(9), "###### ");
}

#[test]
fn markdown_paragraphs_lists_and_inline_code() {
    let renderer = TerminalRenderer::with_theme_and_width(ColorTheme::default(), 40);
    let events = vec![
        MdEvent::StartHeading(2),
        MdEvent::Text("Title".to_string()),
        MdEvent::EndHeading,
        MdEvent::StartParagraph,
        MdEvent::Text("Use".to_string()),
        MdEvent::SoftBreak,
        MdEvent::Code("x".to_string()),
        MdEvent::EndParagraph,
        MdEvent::StartList,
        MdEvent::StartItem,
        MdEvent::Text("one".to_string()),
        MdEvent::EndItem,
        MdEvent::EndList,
        MdEvent::Other,
    ];
    let actions = renderer.markdown_actions(&events);
    assert_eq!(writes(&actions), "\n## Title\nUse `x`\n\n  • one\n\n");
    assert_eq!(actions[1], RenderAction::SetColor(TermColor::Cyan));
    assert!(actions.contains(&RenderAction::SetColor(TermColor::Green)));
}

#[test]
fn markdown_code_blocks_are_collected() {
    let renderer = TerminalRenderer::with_theme_and_width(ColorTheme::default(), 40);
    let events = vec![
        MdEvent::StartCodeBlock("rust".to_string()),
        MdEvent::Text("fn main() {}\n".to_string()),
        MdEvent::Text("// end\n".to_string()),
        MdEvent::EndCodeBlock,
        MdEvent::Rule,
    ];
    let actions = renderer.markdown_actions(&events);
    assert_eq!(
        actions,
        vec![
            RenderAction::CodeBlock("fn main() {}\n// end\n".to_string(), "rust".to_string()),
            RenderAction::Rule,
        ]
    );
}

#[test]
fn markdown_quotes_get_a_bar() {
    let renderer = TerminalRenderer::with_theme_and_width(ColorTheme::default(), 40);
    let events = vec![
        MdEvent::StartBlockQuote,
        MdEvent::Text("a\nb".to_string()),
        MdEvent::EndBlockQuote,
        MdEvent::StartEmphasis,
        MdEvent::Text("e".to_string()),
        MdEvent::EndEmphasis,
    ];
    let actions = renderer.markdown_actions(&events);
    assert_eq!(
        actions,
        vec![
            RenderAction::SetColor(TermColor::DarkGrey),
            RenderAction::Write("│ a\n".to_string()),
            RenderAction::Write("│ b\n".to_string()),
            RenderAction::ResetColor,
            RenderAction::Write("\n".to_string()),
            RenderAction::SetColor(TermColor::Yellow),
            RenderAction::Write("e".to_string()),
            RenderAction::ResetColor,
        ]
    );
}

#[test]
fn spinner_tick_and_finish_actions() {
    let mut s = Spinner::new("wait");
    let first = s.tick();
    assert_eq!(s.frame_index, 1);
    assert_eq!(first[0], RenderAction::LineStart);
    assert_eq!(writes(&first), "⠋ wait");
    let second = s.tick();
    assert_eq!(writes(&second), "⠙ wait");
    let done = s.finish(true);
    assert_eq!(writes(&done), "✓ wait\n");
    assert_eq!(done[1], RenderAction::SetColor(TermColor::Green));
    let failed = s.finish(false);
    assert_eq!(writes(&failed), "✗ wait\n");
    assert_eq!(failed[1], RenderAction::SetColor(TermColor::Red));
}
