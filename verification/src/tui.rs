//! Terminal text formatting: tool execution events and elapsed times.

use crate::text::{chars_of, dec, extend_chars, extend_str, join, lines, lines_of, push_dec, string_from_chars, views};
use vstd::prelude::*;

verus! {

/// Formats tool execution events for display in the terminal.
pub struct ToolOutputFormatter;

/// The header of a tool execution: `⚡ Running: <tool>  <input>`.
pub open spec fn tool_start_text(tool_name: Seq<char>, input_preview: Seq<char>) -> Seq<char> {
    "⚡ Running: "@ + tool_name + "  "@ + input_preview
}

/// Tool output cut to `max_lines` lines, with a notice of how many more there
/// were; output within the limit is returned unchanged.
pub open spec fn tool_result_text(output: Seq<char>, max_lines: nat) -> Seq<char> {
    let ls = lines(output);
    if ls.len() <= max_lines {
        output
    } else {
        join(ls.take(max_lines as int), "\n"@) + "\n… ("@ + dec((ls.len() - max_lines) as nat)
            + " more lines truncated)"@
    }
}

/// A tool error: `✗ Error: <error>`.
pub open spec fn tool_error_text(error: Seq<char>) -> Seq<char> {
    "✗ Error: "@ + error
}

impl ToolOutputFormatter {
    /// The header of a tool execution.
    pub fn format_tool_start(tool_name: &str, input_preview: &str) -> (r: String)
        ensures
            r@ == tool_start_text(tool_name@, input_preview@),
    {
        let mut out = chars_of("⚡ Running: ");
        extend_str(&mut out, tool_name);
        extend_str(&mut out, "  ");
        extend_str(&mut out, input_preview);
        string_from_chars(&out)
    }

    /// Tool output cut to `max_lines` lines, with a notice of the lines left out.
    pub fn format_tool_result(output: &str, max_lines: usize) -> (r: String)
        ensures
            r@ == tool_result_text(output@, max_lines as nat),
    {
        let cs = chars_of(output);
        let ls = lines_of(&cs);
        if ls.len() <= max_lines {
            return crate::text::owned(output);
        }
        let mut kept: Vec<Vec<char>> = Vec::new();
        let mut i: usize = 0;
        while i < max_lines
            invariant
                i <= max_lines < ls.len(),
                views(kept@) == views(ls@).take(i as int),
            decreases max_lines - i,
        {
            let ghost k = views(kept@);
            kept.push(crate::text::tail_of(&ls[i], 0));
            assert(ls@[i as int]@.skip(0) =~= ls@[i as int]@);
            assert(views(kept@) =~= k.push(ls@[i as int]@));
            assert(views(ls@).take(i + 1) =~= views(ls@).take(i as int).push(ls@[i as int]@));
            i += 1;
        }
        let sep = chars_of("\n");
        let mut out = crate::text::join_chars(&kept, &sep);
        extend_str(&mut out, "\n… (");
        push_dec(&mut out, (ls.len() - max_lines) as u64);
        extend_str(&mut out, " more lines truncated)");
        string_from_chars(&out)
    }

    /// A tool error.
    pub fn format_tool_error(error: &str) -> (r: String)
        ensures
            r@ == tool_error_text(error@),
    {
        let mut out = chars_of("✗ Error: ");
        extend_str(&mut out, error);
        string_from_chars(&out)
    }
}

/// A duration as a short "ago" text: seconds below a minute, minutes below
/// an hour, hours otherwise.
pub open spec fn elapsed_text(secs: u64) -> Seq<char> {
    if secs < 60 {
        dec(secs as nat) + "s ago"@
    } else if secs < 3600 {
        dec((secs / 60) as nat) + "m ago"@
    } else {
        dec((secs / 3600) as nat) + "h ago"@
    }
}

/// A duration, given in whole seconds, as a short "ago" text.
pub fn format_elapsed(elapsed_secs: u64) -> (r: String)
    ensures
        r@ == elapsed_text(elapsed_secs),
{
    let mut out: Vec<char> = Vec::new();
    if elapsed_secs < 60 {
        push_dec(&mut out, elapsed_secs);
        extend_str(&mut out, "s ago");
    } else if elapsed_secs < 3600 {
        push_dec(&mut out, elapsed_secs / 60);
        extend_str(&mut out, "m ago");
    } else {
        push_dec(&mut out, elapsed_secs / 3600);
        extend_str(&mut out, "h ago");
    }
    string_from_chars(&out)
}

} // verus!
