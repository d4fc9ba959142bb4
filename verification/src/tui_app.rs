//! The chat application's state and how it reacts to keys, pasted text and
//! model responses. The terminal loop that feeds it lives with the caller.

use crate::text::{chars_of, extend_str, owned, str_eq, string_from_chars};
use vstd::prelude::*;

verus! {

/// The application's mode.
#[derive(Debug, Clone, Copy, PartialEq, Eq, Structural)]
pub enum AppState {
    /// Normal input mode.
    Normal,
    /// Typing a message.
    Input,
    /// Waiting for the model's response.
    Waiting,
    /// Showing help.
    Help,
}

/// A chat message.
#[derive(Debug, Clone)]
pub struct ChatMessage {
    /// Role: "user" or "assistant".
    pub role: String,
    /// Message content.
    pub content: String,
    /// Token count, when known.
    pub tokens: Option<u32>,
}

/// A key, as the application tells keys apart.
#[derive(Debug, Clone, Copy, PartialEq, Eq, Structural)]
pub enum Key {
    /// Enter.
    Enter,
    /// A character key.
    Char(char),
    /// Backspace.
    Backspace,
    /// Delete.
    Delete,
    /// Left arrow.
    Left,
    /// Right arrow.
    Right,
    /// Home.
    Home,
    /// End.
    End,
    /// Up arrow.
    Up,
    /// Down arrow.
    Down,
    /// Escape.
    Esc,
    /// Any other key.
    Other,
}

/// The role of a message sent to the model.
#[derive(Debug, Clone, Copy, PartialEq, Eq, Structural)]
pub enum LlmRole {
    /// The system prompt.
    System,
    /// The user.
    User,
    /// The assistant.
    Assistant,
}

/// The chat application. The input is edited by character, the cursor
/// counting characters.
pub struct App {
    /// Current mode.
    pub state: AppState,
    /// Chat messages.
    pub messages: Vec<ChatMessage>,
    /// Input buffer.
    pub input: String,
    /// Cursor position in the input.
    pub cursor: usize,
    /// Scroll position in the chat history.
    pub scroll: usize,
    /// The model in use.
    pub model: String,
    /// Total tokens used.
    pub total_tokens: u32,
    /// Status message.
    pub status: String,
    /// Whether the application should quit.
    pub should_quit: bool,
    /// The system prompt sent first to the model.
    pub system_prompt: String,
}

/// The model a provider name selects: the Ollama model for `ollama` (in any
/// letter case), the OpenAI model otherwise.
pub open spec fn model_for(provider: Seq<char>, ollama_model: Seq<char>, openai_model: Seq<char>) -> Seq<
    char,
> {
    if crate::text::str_lower(provider) == "ollama"@ {
        ollama_model
    } else {
        openai_model
    }
}

/// Whether the message is the user's `content`, without token count.
pub open spec fn is_user_message(m: ChatMessage, content: Seq<char>) -> bool {
    m.role@ == "user"@ && m.content@ == content && m.tokens is None
}

/// Whether the message is the assistant's `content` with its token count.
pub open spec fn is_assistant_message(m: ChatMessage, content: Seq<char>, tokens: u32) -> bool {
    m.role@ == "assistant"@ && m.content@ == content && m.tokens == Some(tokens)
}

/// `Char::is_control`: the characters of the general category Cc,
/// U+0000 to U+001F and U+007F to U+009F.
pub open spec fn is_control(c: char) -> bool {
    (c as u32) <= 0x1f || (0x7f <= (c as u32) && (c as u32) <= 0x9f)
}

/// Pasted text as it enters the input: line breaks become spaces, other
/// control characters are dropped.
pub open spec fn clean_paste(s: Seq<char>) -> Seq<char>
    decreases s.len(),
{
    if s.len() == 0 {
        seq![]
    } else {
        let c = s.last();
        let d = if c == '\n' || c == '\r' {
            ' '
        } else {
            c
        };
        clean_paste(s.drop_last()) + if is_control(d) {
            seq![]
        } else {
            seq![d]
        }
    }
}

/// The content of the last user message, if any.
pub open spec fn last_user(ms: Seq<ChatMessage>) -> Option<Seq<char>>
    decreases ms.len(),
{
    if ms.len() == 0 {
        None
    } else if ms.last().role@ == "user"@ {
        Some(ms.last().content@)
    } else {
        last_user(ms.drop_last())
    }
}

/// The chat messages as the model sees them: user and assistant messages
/// in order, others left out.
pub open spec fn llm_history(ms: Seq<ChatMessage>) -> Seq<(LlmRole, Seq<char>)>
    decreases ms.len(),
{
    if ms.len() == 0 {
        seq![]
    } else {
        let m = ms.last();
        llm_history(ms.drop_last()) + if m.role@ == "user"@ {
            seq![(LlmRole::User, m.content@)]
        } else if m.role@ == "assistant"@ {
            seq![(LlmRole::Assistant, m.content@)]
        } else {
            seq![]
        }
    }
}

/// The view of a list of model messages.
pub open spec fn llm_view(v: Seq<(LlmRole, String)>) -> Seq<(LlmRole, Seq<char>)> {
    v.map_values(|p: (LlmRole, String)| (p.0, p.1@))
}

/// Whether two states agree on the chat: messages, model, token total and
/// system prompt.
pub open spec fn same_chat(a: App, b: App) -> bool {
    a.messages@ == b.messages@ && a.model@ == b.model@ && a.total_tokens == b.total_tokens
        && a.prompt() == b.prompt()
}

/// Whether two states agree on the input line: its text and cursor.
pub open spec fn same_line(a: App, b: App) -> bool {
    a.input@ == b.input@ && a.cursor == b.cursor
}

/// Whether two states agree on everything.
pub open spec fn same_app(a: App, b: App) -> bool {
    same_chat(a, b) && same_line(a, b) && a.state == b.state && a.scroll == b.scroll && a.status@
        == b.status@ && a.should_quit == b.should_quit
}

/// Whether `b` is `a` with only the input line changed, to `input` and
/// `cursor`.
pub open spec fn line_set(a: App, b: App, input: Seq<char>, cursor: int) -> bool {
    same_chat(a, b) && a.state == b.state && a.scroll == b.scroll && a.status@ == b.status@
        && a.should_quit == b.should_quit && b.input@ == input && b.cursor == cursor
}

/// Whether `b` is `a` with only the cursor moved to `cursor`.
pub open spec fn cursor_set(a: App, b: App, cursor: int) -> bool {
    line_set(a, b, a.input@, cursor)
}

/// What a key does in the input modes.
pub open spec fn input_key_effect(a: App, key: Key, ctrl: bool, b: App) -> bool {
    let inp = a.input@;
    let cur = a.cursor as int;
    match key {
        Key::Enter => if inp.len() > 0 {
            &&& b.messages@.len() == a.messages@.len() + 1
            &&& b.messages@.drop_last() == a.messages@
            &&& is_user_message(b.messages@.last(), inp)
            &&& b.input@.len() == 0 && b.cursor == 0
            &&& b.state == AppState::Waiting
            &&& b.status@ == "Thinking..."@
            &&& b.model@ == a.model@ && b.total_tokens == a.total_tokens && b.prompt() == a.prompt()
            &&& b.scroll == a.scroll && b.should_quit == a.should_quit
        } else {
            same_app(a, b)
        },
        Key::Char(c) => if ctrl {
            if c == 'c' {
                same_chat(a, b) && same_line(a, b) && a.state == b.state && a.scroll == b.scroll
                    && a.status@ == b.status@ && b.should_quit
            } else if c == 'l' {
                &&& b.messages@.len() == 0 && b.total_tokens == 0
                &&& b.status@ == "Cleared"@
                &&& b.model@ == a.model@ && b.prompt() == a.prompt()
                &&& same_line(a, b) && a.state == b.state && a.scroll == b.scroll
                &&& a.should_quit == b.should_quit
            } else if c == 'h' {
                same_chat(a, b) && same_line(a, b) && b.state == AppState::Help && a.scroll
                    == b.scroll && a.status@ == b.status@ && a.should_quit == b.should_quit
            } else {
                same_app(a, b)
            }
        } else {
            line_set(a, b, inp.insert(cur, c), cur + 1)
        },
        Key::Backspace => if cur > 0 {
            line_set(a, b, inp.remove(cur - 1), cur - 1)
        } else {
            same_app(a, b)
        },
        Key::Delete => if cur < inp.len() {
            line_set(a, b, inp.remove(cur), cur)
        } else {
            same_app(a, b)
        },
        Key::Left => if cur > 0 {
            cursor_set(a, b, cur - 1)
        } else {
            same_app(a, b)
        },
        Key::Right => if cur < inp.len() {
            cursor_set(a, b, cur + 1)
        } else {
            same_app(a, b)
        },
        Key::Home => cursor_set(a, b, 0),
        Key::End => cursor_set(a, b, inp.len() as int),
        Key::Up => {
            let last = if a.messages@.len() > 0 {
                a.messages@.len() - 1
            } else {
                0
            };
            same_chat(a, b) && same_line(a, b) && a.state == b.state && a.status@ == b.status@
                && a.should_quit == b.should_quit && b.scroll == if a.scroll < last {
                a.scroll + 1
            } else {
                a.scroll as int
            }
        },
        Key::Down => same_chat(a, b) && same_line(a, b) && a.state == b.state && a.status@
            == b.status@ && a.should_quit == b.should_quit && b.scroll == if a.scroll > 0 {
            a.scroll - 1
        } else {
            0
        },
        Key::Esc => if inp.len() > 0 {
            line_set(a, b, seq![], 0)
        } else {
            same_chat(a, b) && same_line(a, b) && a.state == b.state && a.scroll == b.scroll
                && a.status@ == b.status@ && b.should_quit
        },
        Key::Other => same_app(a, b),
    }
}

/// What a key does: in help any key returns to input; while waiting only
/// Ctrl+C does something (it cancels); in the input modes the key edits,
/// submits, scrolls or quits.
pub open spec fn key_effect(a: App, key: Key, ctrl: bool, b: App) -> bool {
    match a.state {
        AppState::Help => same_chat(a, b) && same_line(a, b) && b.state == AppState::Input
            && a.scroll == b.scroll && a.status@ == b.status@ && a.should_quit == b.should_quit,
        AppState::Waiting => if key == Key::Char('c') && ctrl {
            same_chat(a, b) && same_line(a, b) && b.state == AppState::Input && a.scroll
                == b.scroll && b.status@ == "Cancelled"@ && a.should_quit == b.should_quit
        } else {
            same_app(a, b)
        },
        _ => input_key_effect(a, key, ctrl, b),
    }
}

impl App {
    /// The system prompt.
    pub open spec fn prompt(&self) -> Seq<char> {
        self.system_prompt@
    }

    /// Whether the cursor lies within the input.
    pub open spec fn wf(&self) -> bool {
        self.cursor <= self.input@.len()
    }

    /// A fresh application in input mode, for the given provider name and
    /// its models.
    pub fn new(
        provider_default: &str,
        ollama_model: &str,
        openai_model: &str,
        system_prompt: &str,
    ) -> (r: App)
        ensures
            r.wf(),
            r.state == AppState::Input,
            r.messages@.len() == 0,
            r.input@.len() == 0,
            r.cursor == 0 && r.scroll == 0 && r.total_tokens == 0,
            r.model@ == model_for(provider_default@, ollama_model@, openai_model@),
            r.status@ == "Ready"@,
            !r.should_quit,
            r.prompt() == system_prompt@,
    {
        let lower = crate::text::str_to_lowercase(provider_default);
        let model = if str_eq(lower.as_str(), "ollama") {
            owned(ollama_model)
        } else {
            owned(openai_model)
        };
        App {
            state: AppState::Input,
            messages: Vec::new(),
            input: String::new(),
            cursor: 0,
            scroll: 0,
            model,
            total_tokens: 0,
            status: owned("Ready"),
            should_quit: false,
            system_prompt: owned(system_prompt),
        }
    }

    /// Handles a key press; `ctrl` tells whether Control was held.
    pub fn handle_key(&mut self, key: Key, ctrl: bool)
        requires
            old(self).wf(),
        ensures
            final(self).wf(),
            key_effect(*old(self), key, ctrl, *final(self)),
    {
        match self.state {
            AppState::Help => {
                self.state = AppState::Input;
            },
            AppState::Waiting => {
                if key == Key::Char('c') && ctrl {
                    self.status = owned("Cancelled");
                    self.state = AppState::Input;
                }
            },
            AppState::Input | AppState::Normal => {
                self.handle_input_key(key, ctrl);
            },
        }
    }

    /// Handles a key in the input modes.
    fn handle_input_key(&mut self, key: Key, ctrl: bool)
        requires
            old(self).wf(),
        ensures
            final(self).wf(),
            input_key_effect(*old(self), key, ctrl, *final(self)),
    {
        match key {
            Key::Enter => {
                if !self.input.as_str().is_empty() {
                    let msg = ChatMessage {
                        role: owned("user"),
                        content: owned(self.input.as_str()),
                        tokens: None,
                    };
                    let ghost before = self.messages@;
                    self.messages.push(msg);
                    assert(self.messages@.drop_last() =~= before);
                    self.input = String::new();
                    self.cursor = 0;
                    self.state = AppState::Waiting;
                    self.status = owned("Thinking...");
                }
            },
            Key::Char(c) => {
                if ctrl {
                    if c == 'c' {
                        self.should_quit = true;
                    } else if c == 'l' {
                        self.messages = Vec::new();
                        self.total_tokens = 0;
                        self.status = owned("Cleared");
                    } else if c == 'h' {
                        self.state = AppState::Help;
                    }
                } else {
                    let mut cs = chars_of(self.input.as_str());
                    cs.insert(self.cursor, c);
                    let n = cs.len();
                    assert(self.cursor < n);
                    self.input = string_from_chars(&cs);
                    self.cursor = self.cursor + 1;
                }
            },
            Key::Backspace => {
                if self.cursor > 0 {
                    self.cursor = self.cursor - 1;
                    let mut cs = chars_of(self.input.as_str());
                    cs.remove(self.cursor);
                    self.input = string_from_chars(&cs);
                }
            },
            Key::Delete => {
                let cs0 = chars_of(self.input.as_str());
                if self.cursor < cs0.len() {
                    let mut cs = cs0;
                    cs.remove(self.cursor);
                    self.input = string_from_chars(&cs);
                }
            },
            Key::Left => {
                if self.cursor > 0 {
                    self.cursor = self.cursor - 1;
                }
            },
            Key::Right => {
                let n = chars_of(self.input.as_str()).len();
                if self.cursor < n {
                    self.cursor = self.cursor + 1;
                }
            },
            Key::Home => {
                self.cursor = 0;
            },
            Key::End => {
                self.cursor = chars_of(self.input.as_str()).len();
            },
            Key::Up => {
                let n = self.messages.len();
                let last = if n > 0 {
                    n - 1
                } else {
                    0
                };
                if self.scroll < last {
                    self.scroll = self.scroll + 1;
                }
            },
            Key::Down => {
                if self.scroll > 0 {
                    self.scroll = self.scroll - 1;
                }
            },
            Key::Esc => {
                if !self.input.as_str().is_empty() {
                    self.input = String::new();
                    self.cursor = 0;
                    assert(self.input@ =~= seq![]);
                } else {
                    self.should_quit = true;
                }
            },
            Key::Other => {},
        }
    }

    /// Inserts pasted text at the cursor in the input modes, line breaks as
    /// spaces and without other control characters; ignored otherwise.
    pub fn handle_paste(&mut self, text: &str)
        requires
            old(self).wf(),
        ensures
            final(self).wf(),
            match old(self).state {
                AppState::Input | AppState::Normal => {
                    let clean = clean_paste(text@);
                    let cur = old(self).cursor as int;
                    line_set(
                        *old(self),
                        *final(self),
                        old(self).input@.take(cur) + clean + old(self).input@.skip(cur),
                        cur + clean.len(),
                    )
                },
                _ => same_app(*old(self), *final(self)),
            },
    {
        if self.state == AppState::Input || self.state == AppState::Normal {
            let src = chars_of(text);
            let mut clean: Vec<char> = Vec::new();
            let mut i: usize = 0;
            while i < src.len()
                invariant
                    i <= src.len(),
                    src@ == text@,
                    clean@ == clean_paste(src@.take(i as int)),
                decreases src.len() - i,
            {
                assert(src@.take(i + 1).drop_last() =~= src@.take(i as int));
                let c0 = src[i];
                let d = if c0 == '\n' || c0 == '\r' {
                    ' '
                } else {
                    c0
                };
                let code = d as u32;
                if !(code <= 0x1f || (0x7f <= code && code <= 0x9f)) {
                    clean.push(d);
                }
                i += 1;
            }
            assert(src@.take(src.len() as int) =~= src@);
            let cs = chars_of(self.input.as_str());
            let cur = self.cursor;
            let mut out: Vec<char> = Vec::new();
            let mut j: usize = 0;
            while j < cur
                invariant
                    j <= cur <= cs.len(),
                    out@ == cs@.take(j as int),
                decreases cur - j,
            {
                out.push(cs[j]);
                assert(cs@.take(j + 1) =~= cs@.take(j as int).push(cs@[j as int]));
                j += 1;
            }
            crate::text::extend_chars(&mut out, &clean);
            let mut k: usize = cur;
            while k < cs.len()
                invariant
                    cur <= k <= cs.len(),
                    out@ == cs@.take(cur as int) + clean@ + cs@.subrange(cur as int, k as int),
                decreases cs.len() - k,
            {
                out.push(cs[k]);
                assert(cs@.subrange(cur as int, k + 1) =~= cs@.subrange(cur as int, k as int).push(
                    cs@[k as int],
                ));
                k += 1;
            }
            assert(cs@.subrange(cur as int, cs.len() as int) =~= cs@.skip(cur as int));
            let total = out.len();
            assert(total == cur + clean.len() + (cs.len() - cur));
            self.input = string_from_chars(&out);
            self.cursor = cur + clean.len();
        }
    }

    /// The content of the last user message, if any.
    pub fn last_user_message(&self) -> (r: Option<&str>)
        ensures
            match r {
                Some(s) => last_user(self.messages@) == Some(s@),
                None => last_user(self.messages@) is None,
            },
    {
        let mut i: usize = self.messages.len();
        assert(self.messages@.take(i as int) =~= self.messages@);
        while i > 0
            invariant
                i <= self.messages@.len(),
                last_user(self.messages@) == last_user(self.messages@.take(i as int)),
            decreases i,
        {
            let ghost pre = self.messages@.take(i as int);
            assert(pre.drop_last() =~= self.messages@.take(i - 1));
            if str_eq(self.messages[i - 1].role.as_str(), "user") {
                return Some(self.messages[i - 1].content.as_str());
            }
            i -= 1;
        }
        None
    }

    /// The messages for the model: the system prompt, then the user and
    /// assistant messages in order.
    pub fn build_messages(&self) -> (r: Vec<(LlmRole, String)>)
        ensures
            llm_view(r@) == seq![(LlmRole::System, self.prompt())] + llm_history(self.messages@),
    {
        let mut out: Vec<(LlmRole, String)> = Vec::new();
        out.push((LlmRole::System, owned(self.system_prompt.as_str())));
        let mut i: usize = 0;
        while i < self.messages.len()
            invariant
                i <= self.messages@.len(),
                llm_view(out@) == seq![(LlmRole::System, self.prompt())] + llm_history(
                    self.messages@.take(i as int),
                ),
            decreases self.messages@.len() - i,
        {
            let ghost before = out@;
            assert(self.messages@.take(i + 1).drop_last() =~= self.messages@.take(i as int));
            let m = &self.messages[i];
            if str_eq(m.role.as_str(), "user") {
                out.push((LlmRole::User, owned(m.content.as_str())));
                assert(llm_view(out@) =~= llm_view(before).push((LlmRole::User, m.content@)));
            } else if str_eq(m.role.as_str(), "assistant") {
                out.push((LlmRole::Assistant, owned(m.content.as_str())));
                assert(llm_view(out@) =~= llm_view(before).push((LlmRole::Assistant, m.content@)));
            }
            i += 1;
        }
        assert(self.messages@.take(self.messages@.len() as int) =~= self.messages@);
        out
    }

    /// Adds the assistant's response and its token count, and returns to
    /// input.
    pub fn add_response(&mut self, content: String, tokens: u32)
        requires
            old(self).total_tokens + tokens <= u32::MAX,
        ensures
            final(self).messages@.len() == old(self).messages@.len() + 1,
            final(self).messages@.drop_last() == old(self).messages@,
            is_assistant_message(final(self).messages@.last(), content@, tokens),
            final(self).total_tokens == old(self).total_tokens + tokens,
            final(self).state == AppState::Input,
            final(self).status@ == "Ready"@,
            same_line(*old(self), *final(self)),
            final(self).model@ == old(self).model@ && final(self).prompt() == old(self).prompt(),
            final(self).scroll == old(self).scroll,
            final(self).should_quit == old(self).should_quit,
    {
        self.messages.push(ChatMessage { role: owned("assistant"), content, tokens: Some(tokens) });
        self.total_tokens = self.total_tokens + tokens;
        self.state = AppState::Input;
        self.status = owned("Ready");
    }

    /// Shows an error and returns to input.
    pub fn set_error(&mut self, error: &str)
        ensures
            final(self).status@ == "Error: "@ + error@,
            final(self).state == AppState::Input,
            same_chat(*old(self), *final(self)),
            same_line(*old(self), *final(self)),
            final(self).scroll == old(self).scroll,
            final(self).should_quit == old(self).should_quit,
    {
        let mut s = chars_of("Error: ");
        extend_str(&mut s, error);
        self.status = string_from_chars(&s);
        self.state = AppState::Input;
    }
}

} // verus!
