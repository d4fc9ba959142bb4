use ember::tui::{format_elapsed, ToolOutputFormatter};

#[test]
fn tool_output_format_tool_start() {
    let s = ToolOutputFormatter::format_tool_start("bash", "ls -la");
    assert!(s.contains("⚡"), "missing lightning bolt");
    assert!(s.contains("bash"), "missing tool name");
    assert!(s.contains("ls -la"), "missing input preview");
}

#[test]
fn tool_output_truncation() {
    let long_output = (0..20)
        .map(|i| format!("line {i}"))
        .collect::<Vec<_>>()
        .join("\n");

    let result = ToolOutputFormatter::format_tool_result(&long_output, 5);
    // 5 kept lines + 1 truncation notice
    assert_eq!(result.lines().count(), 6, "expected 5 lines + notice");
    assert!(result.contains("truncated"), "missing truncation notice");

    // Below the limit → no truncation
    let short = "a\nb\nc";
    assert_eq!(
        ToolOutputFormatter::format_tool_result(short, 10),
        short,
        "short output should be returned unchanged"
    );
}

#[test]
fn tool_output_error_formatting() {
    let e = ToolOutputFormatter::format_tool_error("connection refused");
    assert!(e.contains("✗"), "missing ✗ symbol");
    assert!(e.contains("Error"), "missing 'Error' label");
    assert!(e.contains("connection refused"), "missing error message");
}

#[test]
fn tool_output_exact_texts() {
    assert_eq!(
        ToolOutputFormatter::format_tool_start("bash", "ls -la"),
        "⚡ Running: bash  ls -la"
    );
    assert_eq!(
        ToolOutputFormatter::format_tool_result("a\nb\nc", 2),
        "a\nb\n… (1 more lines truncated)"
    );
    assert_eq!(ToolOutputFormatter::format_tool_result("a\nb\n", 2), "a\nb\n");
    assert_eq!(ToolOutputFormatter::format_tool_result("x\ny", 0), "\n… (2 more lines truncated)");
    assert_eq!(
        ToolOutputFormatter::format_tool_error("connection refused"),
        "✗ Error: connection refused"
    );
}

#[test]
fn elapsed_texts() {
    assert_eq!(format_elapsed(0), "0s ago");
    assert_eq!(format_elapsed(59), "59s ago");
    assert_eq!(format_elapsed(60), "1m ago");
    assert_eq!(format_elapsed(3599), "59m ago");
    assert_eq!(format_elapsed(3600), "1h ago");
    assert_eq!(format_elapsed(90000), "25h ago");
}
