//! The chat panel of the terminal interface as styled lines: each message
//! under a role header, its text wrapped behind a gutter, its token count,
//! and a thinking line while the model answers.

use crate::text::{dec, owned, push_dec, str_eq, string_from_chars};
use crate::tui_app::{App, AppState, ChatMessage};
use vstd::prelude::*;

verus! {

/// How a piece of a chat line is drawn.
#[derive(Debug, Clone, Copy, PartialEq, Eq, Structural)]
pub enum ChatStyle {
    /// The user's marker and name, bold in the user color.
    UserHeader,
    /// The assistant's marker and name, bold in the assistant color.
    AssistantHeader,
    /// The gutter of a user message, dimmed in the user color.
    UserGutter,
    /// The gutter of an assistant message, dimmed in the assistant color.
    AssistantGutter,
    /// Muted, dimmed text.
    Muted,
    /// Plain text.
    Plain,
    /// The thinking indicator, italic in the thinking color.
    Thinking,
}

/// A piece of a chat line: its text and style.
#[derive(Debug, Clone)]
pub struct ChatSpan {
    /// The text.
    pub text: String,
    /// How it is drawn.
    pub style: ChatStyle,
}

/// A chat line as mathematics sees it.
pub type LineModel = Seq<(Seq<char>, ChatStyle)>;

/// The view of a chat line.
pub open spec fn line_model(l: Vec<ChatSpan>) -> LineModel {
    l@.map_values(|s: ChatSpan| (s.text@, s.style))
}

/// The views of chat lines.
pub open spec fn line_models(ls: Seq<Vec<ChatSpan>>) -> Seq<LineModel> {
    ls.map_values(|l: Vec<ChatSpan>| line_model(l))
}

/// The lines textwrap breaks a text into at `width` columns
/// (`textwrap::wrap` with default options).
pub uninterp spec fn text_wrap(s: Seq<char>, width: nat) -> Seq<Seq<char>>;

/// `textwrap::wrap` with default options: the text broken into lines of
/// at most `width` columns. Stated is only that the lines are a function
/// of the text and the width.
#[verifier::external_body]
fn wrap_text(s: &str, width: usize) -> (r: Vec<String>)
    ensures
        r@.map_values(|l: String| l@) == text_wrap(s@, width as nat),
{
    textwrap::wrap(s, width).into_iter().map(|l| l.into_owned()).collect()
}

/// The columns a message's text is wrapped to in a panel `inner_width`
/// wide: six fewer, for the gutter and margins, and no fewer than zero.
pub open spec fn content_width(inner_width: u16) -> nat {
    if inner_width >= 6 {
        (inner_width - 6) as nat
    } else {
        0
    }
}

/// The header of a message: the user's ` >> you` for the user, the
/// assistant's ` << ember` for the assistant.
pub open spec fn header_line(user: bool) -> LineModel {
    if user {
        seq![(" >> "@, ChatStyle::UserHeader), ("you"@, ChatStyle::UserHeader)]
    } else {
        seq![(" << "@, ChatStyle::AssistantHeader), ("ember"@, ChatStyle::AssistantHeader)]
    }
}

/// The wrapped lines of a message's text, each behind a gutter.
pub open spec fn body_lines(ws: Seq<Seq<char>>, user: bool) -> Seq<LineModel> {
    ws.map_values(
        |w: Seq<char>|
            seq![
                ("    │ "@, if user {
                    ChatStyle::UserGutter
                } else {
                    ChatStyle::AssistantGutter
                }),
                (w, ChatStyle::Plain),
            ],
    )
}

/// The lines of one message: for the user or the assistant, the header,
/// the wrapped text and, for the assistant, the token count when known;
/// for any other role nothing; then an empty separator line.
pub open spec fn message_lines(m: ChatMessage, width: nat) -> Seq<LineModel> {
    let user = m.role@ == "user"@;
    let assistant = m.role@ == "assistant"@;
    (if user || assistant {
        seq![header_line(user)] + body_lines(text_wrap(m.content@, width), user) + match m.tokens {
            Some(t) => if assistant {
                seq![seq![("    "@, ChatStyle::Plain), ("["@ + dec(t as nat) + " tokens]"@, ChatStyle::Muted)]]
            } else {
                Seq::empty()
            },
            None => Seq::empty(),
        }
    } else {
        Seq::empty()
    }) + seq![Seq::empty()]
}

/// The lines of messages, in order.
pub open spec fn messages_lines(ms: Seq<ChatMessage>, width: nat) -> Seq<LineModel>
    decreases ms.len(),
{
    if ms.len() == 0 {
        Seq::empty()
    } else {
        messages_lines(ms.drop_last(), width) + message_lines(ms.last(), width)
    }
}

/// The chat panel's lines: the messages' lines, then the thinking line
/// while the model answers.
pub open spec fn chat_model(app: App, inner_width: u16) -> Seq<LineModel> {
    messages_lines(app.messages@, content_width(inner_width)) + if app.state == AppState::Waiting {
        seq![seq![(" thinking ..."@, ChatStyle::Thinking)], Seq::empty()]
    } else {
        Seq::empty()
    }
}

/// A piece of a line.
fn span(text: &str, style: ChatStyle) -> (r: ChatSpan)
    ensures
        r.text@ == text@,
        r.style == style,
{
    ChatSpan { text: owned(text), style }
}

/// Appends the lines of one message.
fn push_message_lines(out: &mut Vec<Vec<ChatSpan>>, m: &ChatMessage, width: usize)
    ensures
        line_models(final(out)@) == line_models(old(out)@) + message_lines(*m, width as nat),
{
    let ghost start = line_models(out@);
    let user = str_eq(m.role.as_str(), "user");
    let assistant = str_eq(m.role.as_str(), "assistant");
    if user || assistant {
        let mut header: Vec<ChatSpan> = Vec::new();
        if user {
            header.push(span(" >> ", ChatStyle::UserHeader));
            header.push(span("you", ChatStyle::UserHeader));
        } else {
            header.push(span(" << ", ChatStyle::AssistantHeader));
            header.push(span("ember", ChatStyle::AssistantHeader));
        }
        assert(line_model(header) =~= header_line(user));
        out.push(header);
        let ghost with_header = line_models(out@);
        assert(with_header =~= start + seq![header_line(user)]);
        let wrapped = wrap_text(m.content.as_str(), width);
        let ghost ws = wrapped@.map_values(|l: String| l@);
        let gutter = if user {
            ChatStyle::UserGutter
        } else {
            ChatStyle::AssistantGutter
        };
        let mut i: usize = 0;
        while i < wrapped.len()
            invariant
                i <= wrapped@.len(),
                ws == wrapped@.map_values(|l: String| l@),
                ws == text_wrap(m.content@, width as nat),
                gutter == (if user {
                    ChatStyle::UserGutter
                } else {
                    ChatStyle::AssistantGutter
                }),
                line_models(out@) == with_header + body_lines(ws.take(i as int), user),
            decreases wrapped@.len() - i,
        {
            let ghost o = line_models(out@);
            let mut line: Vec<ChatSpan> = Vec::new();
            line.push(span("    │ ", gutter));
            line.push(span(wrapped[i].as_str(), ChatStyle::Plain));
            out.push(line);
            assert(line_model(line) =~= seq![("    │ "@, gutter), (ws[i as int], ChatStyle::Plain)]);
            assert(line_models(out@) =~= o.push(line_model(line)));
            assert(body_lines(ws.take(i + 1), user) =~= body_lines(ws.take(i as int), user).push(
                line_model(line),
            ));
            i += 1;
        }
        assert(ws.take(wrapped@.len() as int) =~= ws);
        let ghost with_body = line_models(out@);
        match m.tokens {
            Some(t) => {
                if assistant {
                    let mut label: Vec<char> = Vec::new();
                    label.push('[');
                    proof {
                        reveal_strlit("[");
                        assert(label@ =~= "["@);
                    }
                    push_dec(&mut label, t as u64);
                    crate::text::extend_str(&mut label, " tokens]");
                    let mut line: Vec<ChatSpan> = Vec::new();
                    line.push(span("    ", ChatStyle::Plain));
                    line.push(ChatSpan { text: string_from_chars(&label), style: ChatStyle::Muted });
                    assert(label@ =~= "["@ + dec(t as nat) + " tokens]"@);
                    assert(line_model(line) =~= seq![
                        ("    "@, ChatStyle::Plain),
                        ("["@ + dec(t as nat) + " tokens]"@, ChatStyle::Muted),
                    ]);
                    out.push(line);
                    assert(line_models(out@) =~= with_body.push(line_model(line)));
                }
            },
            None => {},
        }
    }
    let ghost before_sep = line_models(out@);
    let sep: Vec<ChatSpan> = Vec::new();
    out.push(sep);
    assert(line_model(sep) =~= Seq::<(Seq<char>, ChatStyle)>::empty());
    assert(line_models(out@) =~= before_sep.push(Seq::empty()));
    assert(line_models(out@) =~= start + message_lines(*m, width as nat));
}

/// The chat panel's lines for a panel `inner_width` columns wide: each
/// message under its role header with its text wrapped behind a gutter,
/// the assistant's token counts, a separator after each message, and the
/// thinking line while the model answers.
pub fn chat_lines(app: &App, inner_width: u16) -> (r: Vec<Vec<ChatSpan>>)
    ensures
        line_models(r@) == chat_model(*app, inner_width),
{
    let width: usize = if inner_width >= 6 {
        (inner_width - 6) as usize
    } else {
        0
    };
    let mut out: Vec<Vec<ChatSpan>> = Vec::new();
    let mut i: usize = 0;
    while i < app.messages.len()
        invariant
            i <= app.messages@.len(),
            width == content_width(inner_width),
            line_models(out@) == messages_lines(app.messages@.take(i as int), width as nat),
        decreases app.messages@.len() - i,
    {
        assert(app.messages@.take(i + 1).drop_last() =~= app.messages@.take(i as int));
        push_message_lines(&mut out, &app.messages[i], width);
        i += 1;
    }
    assert(app.messages@.take(app.messages@.len() as int) =~= app.messages@);
    let ghost msgs = line_models(out@);
    if app.state == AppState::Waiting {
        let mut line: Vec<ChatSpan> = Vec::new();
        line.push(span(" thinking ...", ChatStyle::Thinking));
        assert(line_model(line) =~= seq![(" thinking ..."@, ChatStyle::Thinking)]);
        out.push(line);
        let sep: Vec<ChatSpan> = Vec::new();
        assert(line_model(sep) =~= Seq::<(Seq<char>, ChatStyle)>::empty());
        out.push(sep);
        assert(line_models(out@) =~= msgs + seq![
            seq![(" thinking ..."@, ChatStyle::Thinking)],
            Seq::empty(),
        ]);
    } else {
        assert(line_models(out@) =~= msgs + Seq::empty());
    }
    out
}

/// How far the chat panel scrolls to show its last lines: the line count
/// (as a `u16`, wrapping) less the visible height, and no less than zero.
pub fn chat_scroll_offset(line_count: usize, visible_height: u16) -> (r: u16)
    ensures
        r == if (line_count % 65536) as u16 > visible_height {
            ((line_count % 65536) as u16 - visible_height) as u16
        } else {
            0u16
        },
{
    let total = (line_count % 65536) as u16;
    if total > visible_height {
        total - visible_height
    } else {
        0
    }
}

} // verus!
