//! The context of an agent conversation: a system message and a history
//! that is trimmed from the oldest end to stay within a token limit.

use crate::text::owned;
use vstd::prelude::*;

verus! {

/// The role of a message to the model.
#[derive(Debug, Clone, Copy, PartialEq, Eq, Structural)]
pub enum Role {
    /// The system prompt.
    System,
    /// The user.
    User,
    /// The assistant.
    Assistant,
    /// A tool.
    Tool,
}

/// A message to or from the model.
#[derive(Debug)]
pub struct Message {
    /// Role.
    pub role: Role,
    /// Content.
    pub content: String,
}

impl Message {
    /// A system message.
    pub fn system(content: &str) -> (r: Message)
        ensures
            r.role == Role::System && r.content@ == content@,
    {
        Message { role: Role::System, content: owned(content) }
    }

    /// A user message.
    pub fn user(content: &str) -> (r: Message)
        ensures
            r.role == Role::User && r.content@ == content@,
    {
        Message { role: Role::User, content: owned(content) }
    }

    /// An assistant message.
    pub fn assistant(content: &str) -> (r: Message)
        ensures
            r.role == Role::Assistant && r.content@ == content@,
    {
        Message { role: Role::Assistant, content: owned(content) }
    }

    /// A copy of the message.
    pub fn duplicate(&self) -> (r: Message)
        ensures
            r.role == self.role && r.content@ == self.content@,
    {
        Message { role: self.role, content: owned(self.content.as_str()) }
    }
}

/// The view of a message: its role and content.
pub open spec fn msg_view(m: Message) -> (Role, Seq<char>) {
    (m.role, m.content@)
}

/// The views of messages.
pub open spec fn msg_views(ms: Seq<Message>) -> Seq<(Role, Seq<char>)> {
    ms.map_values(|m: Message| msg_view(m))
}

/// Estimated tokens of a text: a token per four bytes, rounded up.
pub open spec fn tokens_of(s: Seq<char>) -> int {
    (crate::context_manager::byte_len(s) + 3) / 4
}

/// Estimated tokens of a text.
pub fn estimate_tokens(text: &str) -> (r: usize)
    ensures
        r == tokens_of(text@),
{
    let len = text.len();
    assert((len + 3) / 4 == len / 4 + if len % 4 == 0 {
        0int
    } else {
        1int
    });
    if len % 4 == 0 {
        len / 4
    } else {
        len / 4 + 1
    }
}

/// The estimated tokens of messages.
pub open spec fn history_tokens(ms: Seq<(Role, Seq<char>)>) -> int
    decreases ms.len(),
{
    if ms.len() == 0 {
        0
    } else {
        history_tokens(ms.drop_last()) + tokens_of(ms.last().1)
    }
}

/// The history after trimming: the oldest messages go while the total
/// exceeds the limit and messages remain.
pub open spec fn trimmed(ms: Seq<(Role, Seq<char>)>, system_tokens: int, max_tokens: int) -> Seq<
    (Role, Seq<char>),
>
    decreases ms.len(),
{
    if ms.len() > 0 && system_tokens + history_tokens(ms) > max_tokens {
        trimmed(ms.drop_first(), system_tokens, max_tokens)
    } else {
        ms
    }
}

/// Dropping the oldest message lowers the total by its tokens.
proof fn lemma_history_drop_first(ms: Seq<(Role, Seq<char>)>)
    requires
        ms.len() > 0,
    ensures
        history_tokens(ms) == tokens_of(ms[0].1) + history_tokens(ms.drop_first()),
    decreases ms.len(),
{
    if ms.len() > 1 {
        lemma_history_drop_first(ms.drop_last());
        assert(ms.drop_last().drop_first() =~= ms.drop_first().drop_last());
        assert(ms.drop_first().last() == ms.last());
        assert(ms.drop_last()[0] == ms[0]);
        assert(history_tokens(ms.drop_first()) == history_tokens(ms.drop_first().drop_last())
            + tokens_of(ms.drop_first().last().1));
    } else {
        assert(ms.drop_first().len() == 0);
        assert(ms.drop_last().len() == 0);
        assert(history_tokens(ms.drop_last()) == 0);
        assert(history_tokens(ms.drop_first()) == 0);
        assert(ms.last() == ms[0]);
    }
}

/// Token totals are not negative.
proof fn lemma_history_nonneg(ms: Seq<(Role, Seq<char>)>)
    ensures
        history_tokens(ms) >= 0,
    decreases ms.len(),
{
    if ms.len() > 0 {
        lemma_history_nonneg(ms.drop_last());
    }
}

/// A conversation context: the system message first, then the history,
/// with the estimated tokens of both.
pub struct Context {
    system_message: Message,
    messages: Vec<Message>,
    token_count: usize,
    max_tokens: usize,
}

impl Context {
    /// The system prompt.
    pub closed spec fn system(&self) -> Seq<char> {
        self.system_message.content@
    }

    /// The history, oldest first.
    pub closed spec fn history(&self) -> Seq<(Role, Seq<char>)> {
        msg_views(self.messages@)
    }

    /// The token limit.
    pub closed spec fn limit(&self) -> usize {
        self.max_tokens
    }

    /// The context's invariant: the token count is the system prompt's and
    /// the history's, and the system message has the system role.
    pub closed spec fn wf(&self) -> bool {
        &&& self.token_count == tokens_of(self.system_message.content@) + history_tokens(
            msg_views(self.messages@),
        )
        &&& self.system_message.role == Role::System
    }

    /// The estimated tokens of the context.
    pub open spec fn tokens(&self) -> int {
        tokens_of(self.system()) + history_tokens(self.history())
    }

    /// A context with a system prompt and a token limit.
    pub fn new(system_prompt: &str, max_tokens: usize) -> (r: Context)
        ensures
            r.wf(),
            r.system() == system_prompt@,
            r.history().len() == 0,
            r.limit() == max_tokens,
    {
        let system_message = Message::system(system_prompt);
        let tokens = estimate_tokens(system_message.content.as_str());
        let r = Context { system_message, messages: Vec::new(), token_count: tokens, max_tokens };
        assert(msg_views(r.messages@) =~= Seq::<(Role, Seq<char>)>::empty());
        r
    }

    /// Adds a user message; see `add_message`.
    pub fn add_user_message(&mut self, content: &str)
        requires
            old(self).wf(),
            old(self).tokens() + tokens_of(content@) <= usize::MAX,
        ensures
            final(self).wf(),
            final(self).system() == old(self).system(),
            final(self).limit() == old(self).limit(),
            final(self).history() == trimmed(
                old(self).history().push((Role::User, content@)),
                tokens_of(old(self).system()),
                old(self).limit() as int,
            ),
    {
        self.add_message(Message::user(content));
    }

    /// Adds an assistant message; see `add_message`.
    pub fn add_assistant_message(&mut self, content: &str)
        requires
            old(self).wf(),
            old(self).tokens() + tokens_of(content@) <= usize::MAX,
        ensures
            final(self).wf(),
            final(self).system() == old(self).system(),
            final(self).limit() == old(self).limit(),
            final(self).history() == trimmed(
                old(self).history().push((Role::Assistant, content@)),
                tokens_of(old(self).system()),
                old(self).limit() as int,
            ),
    {
        self.add_message(Message::assistant(content));
    }

    /// Adds a message to the history, then drops the oldest messages while
    /// the context exceeds its limit.
    pub fn add_message(&mut self, message: Message)
        requires
            old(self).wf(),
            old(self).tokens() + tokens_of(message.content@) <= usize::MAX,
        ensures
            final(self).wf(),
            final(self).system() == old(self).system(),
            final(self).limit() == old(self).limit(),
            final(self).history() == trimmed(
                old(self).history().push(msg_view(message)),
                tokens_of(old(self).system()),
                old(self).limit() as int,
            ),
    {
        let tokens = estimate_tokens(message.content.as_str());
        let ghost before = msg_views(self.messages@);
        self.messages.push(message);
        assert(msg_views(self.messages@) =~= before.push(msg_view(message)));
        assert(msg_views(self.messages@).drop_last() =~= before);
        self.token_count = self.token_count + tokens;
        self.trim_to_fit();
    }

    /// Drops the oldest messages while the context exceeds its limit.
    fn trim_to_fit(&mut self)
        requires
            old(self).wf(),
        ensures
            final(self).wf(),
            final(self).system_message == old(self).system_message,
            final(self).max_tokens == old(self).max_tokens,
            msg_views(final(self).messages@) == trimmed(
                msg_views(old(self).messages@),
                tokens_of(old(self).system_message.content@),
                old(self).max_tokens as int,
            ),
    {
        let ghost sys = tokens_of(self.system_message.content@);
        while self.token_count > self.max_tokens && self.messages.len() > 0
            invariant
                self.wf(),
                sys == tokens_of(self.system_message.content@),
                self.system_message == old(self).system_message,
                self.max_tokens == old(self).max_tokens,
                trimmed(msg_views(self.messages@), sys, self.max_tokens as int) == trimmed(
                    msg_views(old(self).messages@),
                    sys,
                    old(self).max_tokens as int,
                ),
            decreases self.messages@.len(),
        {
            let ghost views = msg_views(self.messages@);
            let removed = self.messages.remove(0);
            proof {
                assert(msg_views(self.messages@) =~= views.drop_first());
                lemma_history_drop_first(views);
                lemma_history_nonneg(views.drop_first());
            }
            let t = estimate_tokens(removed.content.as_str());
            self.token_count = self.token_count - t;
        }
    }

    /// All messages, the system message first.
    pub fn messages(&self) -> (r: Vec<Message>)
        requires
            self.wf(),
        ensures
            msg_views(r@) == seq![(Role::System, self.system())] + self.history(),
    {
        let mut out: Vec<Message> = Vec::new();
        out.push(self.system_message.duplicate());
        let mut i: usize = 0;
        while i < self.messages.len()
            invariant
                i <= self.messages@.len(),
                self.system_message.role == Role::System,
                msg_views(out@) == seq![(self.system_message.role, self.system())] + msg_views(
                    self.messages@.take(i as int),
                ),
            decreases self.messages@.len() - i,
        {
            let ghost o = out@;
            out.push(self.messages[i].duplicate());
            assert(msg_views(out@) =~= msg_views(o).push(msg_view(self.messages@[i as int])));
            assert(self.messages@.take(i + 1) =~= self.messages@.take(i as int).push(
                self.messages@[i as int],
            ));
            assert(msg_views(self.messages@.take(i + 1)) =~= msg_views(
                self.messages@.take(i as int),
            ).push(msg_view(self.messages@[i as int])));
            i += 1;
        }
        assert(self.messages@.take(self.messages@.len() as int) =~= self.messages@);
        out
    }

    /// The number of messages besides the system message.
    pub fn len(&self) -> (r: usize)
        ensures
            r == self.history().len(),
    {
        self.messages.len()
    }

    /// Whether there are no messages besides the system message.
    pub fn is_empty(&self) -> (r: bool)
        ensures
            r == (self.history().len() == 0),
    {
        self.messages.len() == 0
    }

    /// The estimated tokens.
    pub fn token_count(&self) -> (r: usize)
        requires
            self.wf(),
        ensures
            r == self.tokens(),
    {
        self.token_count
    }

    /// The tokens left before the limit.
    pub fn remaining_tokens(&self) -> (r: usize)
        requires
            self.wf(),
        ensures
            r == if self.limit() > self.tokens() {
                self.limit() - self.tokens()
            } else {
                0
            },
    {
        self.max_tokens.saturating_sub(self.token_count)
    }

    /// Whether `tokens` more fit within the limit.
    pub fn has_capacity(&self, tokens: usize) -> (r: bool)
        requires
            self.wf(),
            self.tokens() + tokens <= usize::MAX,
        ensures
            r == (self.tokens() + tokens <= self.limit()),
    {
        self.token_count + tokens <= self.max_tokens
    }

    /// Removes every message but the system message.
    pub fn clear(&mut self)
        requires
            old(self).wf(),
        ensures
            final(self).wf(),
            final(self).system() == old(self).system(),
            final(self).limit() == old(self).limit(),
            final(self).history().len() == 0,
    {
        self.messages = Vec::new();
        assert(msg_views(self.messages@) =~= Seq::<(Role, Seq<char>)>::empty());
        self.token_count = estimate_tokens(self.system_message.content.as_str());
    }

    /// The last message, if any.
    pub fn last_message(&self) -> (r: Option<&Message>)
        ensures
            match r {
                Some(m) => self.history().len() > 0 && msg_view(*m) == self.history().last(),
                None => self.history().len() == 0,
            },
    {
        let n = self.messages.len();
        if n == 0 {
            None
        } else {
            Some(&self.messages[n - 1])
        }
    }

    /// The last assistant message, if any.
    pub fn last_assistant_message(&self) -> (r: Option<&Message>)
        ensures
            match r {
                Some(m) => m.role == Role::Assistant && exists|i: int|
                    0 <= i < self.history().len() && self.history()[i] == msg_view(*m) && forall|
                        j: int,
                    |
                        i < j < self.history().len() ==> (#[trigger] self.history()[j]).0
                            != Role::Assistant,
                None => forall|j: int|
                    0 <= j < self.history().len() ==> (#[trigger] self.history()[j]).0 != Role::Assistant,
            },
    {
        let mut i: usize = self.messages.len();
        while i > 0
            invariant
                i <= self.messages@.len(),
                forall|j: int|
                    i <= j < self.messages@.len() ==> (#[trigger] self.messages@[j]).role != Role::Assistant,
            decreases i,
        {
            if self.messages[i - 1].role == Role::Assistant {
                assert(self.history()[i - 1] == msg_view(self.messages@[i - 1]));
                assert forall|j: int| i - 1 < j < self.history().len() implies (
                #[trigger] self.history()[j]).0 != Role::Assistant by {
                    assert(self.history()[j] == msg_view(self.messages@[j]));
                }
                return Some(&self.messages[i - 1]);
            }
            i -= 1;
        }
        assert forall|j: int| 0 <= j < self.history().len() implies (
        #[trigger] self.history()[j]).0 != Role::Assistant by {
            assert(self.history()[j] == msg_view(self.messages@[j]));
        }
        None
    }

    /// Replaces the system prompt; the history stays as it is.
    pub fn set_system_prompt(&mut self, prompt: &str)
        requires
            old(self).wf(),
            tokens_of(prompt@) + history_tokens(old(self).history()) <= usize::MAX,
        ensures
            final(self).wf(),
            final(self).system() == prompt@,
            final(self).history() == old(self).history(),
            final(self).limit() == old(self).limit(),
    {
        let old_tokens = estimate_tokens(self.system_message.content.as_str());
        self.system_message = Message::system(prompt);
        let new_tokens = estimate_tokens(self.system_message.content.as_str());
        proof {
            lemma_history_nonneg(msg_views(self.messages@));
        }
        self.token_count = self.token_count - old_tokens + new_tokens;
    }
}

/// Makes contexts with default settings.
pub struct ContextManager {
    /// The default system prompt.
    pub default_system_prompt: String,
    /// The default token limit.
    pub default_max_tokens: usize,
}

impl ContextManager {
    /// A context manager with defaults.
    pub fn new(default_system_prompt: &str, default_max_tokens: usize) -> (r: ContextManager)
        ensures
            r.default_system_prompt@ == default_system_prompt@,
            r.default_max_tokens == default_max_tokens,
    {
        ContextManager { default_system_prompt: owned(default_system_prompt), default_max_tokens }
    }

    /// A context with the defaults.
    pub fn create_context(&self) -> (r: Context)
        ensures
            r.wf(),
            r.system() == self.default_system_prompt@,
            r.limit() == self.default_max_tokens,
            r.history().len() == 0,
    {
        Context::new(self.default_system_prompt.as_str(), self.default_max_tokens)
    }

    /// A context with another system prompt.
    pub fn create_context_with_prompt(&self, system_prompt: &str) -> (r: Context)
        ensures
            r.wf(),
            r.system() == system_prompt@,
            r.limit() == self.default_max_tokens,
            r.history().len() == 0,
    {
        Context::new(system_prompt, self.default_max_tokens)
    }

    /// A context with its own prompt and limit.
    pub fn create_context_custom(&self, system_prompt: &str, max_tokens: usize) -> (r: Context)
        ensures
            r.wf(),
            r.system() == system_prompt@,
            r.limit() == max_tokens,
            r.history().len() == 0,
    {
        Context::new(system_prompt, max_tokens)
    }
}

impl Default for ContextManager {
    fn default() -> (r: ContextManager)
        ensures
            r.default_system_prompt@.len() == 0,
            r.default_max_tokens == 0,
    {
        ContextManager { default_system_prompt: String::new(), default_max_tokens: 0 }
    }
}

} // verus!
