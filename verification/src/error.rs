//! Errors of the agent core.

use crate::text::{chars_of, extend_str, owned, push_dec, string_from_chars};
use vstd::prelude::*;

verus! {

/// Errors of the agent core. Errors that come from outside (the model
/// provider, serialization, I/O) carry their message.
#[derive(Debug, Clone, PartialEq, Eq)]
pub enum Error {
    /// An error of the model provider.
    Llm(String),
    /// A configuration error.
    Config(String),
    /// The agent is not initialized.
    NotInitialized(String),
    /// A tool failed.
    ToolExecution {
        /// The tool that failed.
        tool: String,
        /// The error message.
        message: String,
    },
    /// The context window was exceeded.
    ContextOverflow {
        /// Current token count.
        current: usize,
        /// Maximum allowed tokens.
        max: usize,
    },
    /// A memory operation failed.
    Memory(String),
    /// No conversation with this ID.
    ConversationNotFound(String),
    /// The agent loop ran too often.
    LoopLimitExceeded {
        /// Iterations performed.
        iterations: usize,
    },
    /// Serialization failed.
    Serialization(String),
    /// I/O failed.
    Io(String),
    /// An invalid state transition.
    InvalidStateTransition {
        /// Current state.
        from: String,
        /// Target state.
        to: String,
    },
    /// An operation timed out.
    Timeout {
        /// The timeout in seconds.
        seconds: u64,
    },
    /// An operation was cancelled.
    Cancelled,
    /// An agent or orchestrator error.
    Agent(String),
    /// Not implemented.
    NotImplemented(String),
    /// A resource was not found.
    NotFound(String),
    /// A resource is exhausted.
    ResourceExhausted(String),
    /// An internal error.
    Internal(String),
    /// A timeout with a message.
    TimeoutMsg(String),
}

/// Whether an error is worth retrying: tool failures, timeouts and memory
/// errors.
pub open spec fn recoverable(e: Error) -> bool {
    match e {
        Error::ToolExecution { .. } | Error::Timeout { .. } | Error::TimeoutMsg(_) | Error::Memory(
            _,
        ) => true,
        _ => false,
    }
}

/// `prefix` followed by `s`.
fn prefixed(prefix: &str, s: &str) -> (r: String)
    ensures
        r@ == prefix@ + s@,
{
    let mut v = chars_of(prefix);
    extend_str(&mut v, s);
    string_from_chars(&v)
}

impl Error {
    /// A configuration error.
    pub fn config(msg: &str) -> (r: Error)
        ensures
            r matches Error::Config(m) && m@ == msg@,
    {
        Error::Config(owned(msg))
    }

    /// A not-initialized error.
    pub fn not_initialized(msg: &str) -> (r: Error)
        ensures
            r matches Error::NotInitialized(m) && m@ == msg@,
    {
        Error::NotInitialized(owned(msg))
    }

    /// A tool execution error.
    pub fn tool_execution(tool: &str, message: &str) -> (r: Error)
        ensures
            r matches Error::ToolExecution { tool: t, message: m } && t@ == tool@ && m@ == message@,
    {
        Error::ToolExecution { tool: owned(tool), message: owned(message) }
    }

    /// A memory error.
    pub fn memory(msg: &str) -> (r: Error)
        ensures
            r matches Error::Memory(m) && m@ == msg@,
    {
        Error::Memory(owned(msg))
    }

    /// A timeout with a message.
    #[allow(non_snake_case)]
    pub fn Timeout(msg: &str) -> (r: Error)
        ensures
            r matches Error::TimeoutMsg(m) && m@ == msg@,
    {
        Error::TimeoutMsg(owned(msg))
    }

    /// Whether the error is worth retrying.
    pub fn is_recoverable(&self) -> (r: bool)
        ensures
            r == recoverable(*self),
    {
        match self {
            Error::ToolExecution { .. } | Error::Timeout { .. } | Error::TimeoutMsg(_) | Error::Memory(
                _,
            ) => true,
            _ => false,
        }
    }

    /// The error's message.
    pub fn message(&self) -> (r: String)
        ensures
            r@ == message_of(*self),
    {
        match self {
            Error::Llm(m) => prefixed("LLM error: ", m.as_str()),
            Error::Config(m) => prefixed("Configuration error: ", m.as_str()),
            Error::NotInitialized(m) => prefixed("Agent not initialized: ", m.as_str()),
            Error::ToolExecution { tool, message } => {
                let mut v = chars_of("Tool execution failed: ");
                extend_str(&mut v, tool.as_str());
                extend_str(&mut v, " - ");
                extend_str(&mut v, message.as_str());
                string_from_chars(&v)
            },
            Error::ContextOverflow { current, max } => {
                let mut v = chars_of("Context window exceeded: ");
                push_dec(&mut v, *current as u64);
                extend_str(&mut v, " tokens > ");
                push_dec(&mut v, *max as u64);
                extend_str(&mut v, " max");
                string_from_chars(&v)
            },
            Error::Memory(m) => prefixed("Memory error: ", m.as_str()),
            Error::ConversationNotFound(m) => prefixed("Conversation not found: ", m.as_str()),
            Error::LoopLimitExceeded { iterations } => {
                let mut v = chars_of("Agent loop limit exceeded: ");
                push_dec(&mut v, *iterations as u64);
                extend_str(&mut v, " iterations");
                string_from_chars(&v)
            },
            Error::Serialization(m) => prefixed("Serialization error: ", m.as_str()),
            Error::Io(m) => prefixed("IO error: ", m.as_str()),
            Error::InvalidStateTransition { from, to } => {
                let mut v = chars_of("Invalid state transition: ");
                extend_str(&mut v, from.as_str());
                extend_str(&mut v, " -> ");
                extend_str(&mut v, to.as_str());
                string_from_chars(&v)
            },
            Error::Timeout { seconds } => {
                let mut v = chars_of("Operation timed out after ");
                push_dec(&mut v, *seconds);
                extend_str(&mut v, "s");
                string_from_chars(&v)
            },
            Error::Cancelled => owned("Operation was cancelled"),
            Error::Agent(m) => prefixed("Agent error: ", m.as_str()),
            Error::NotImplemented(m) => prefixed("Not implemented: ", m.as_str()),
            Error::NotFound(m) => prefixed("Not found: ", m.as_str()),
            Error::ResourceExhausted(m) => prefixed("Resource exhausted: ", m.as_str()),
            Error::Internal(m) => prefixed("Internal error: ", m.as_str()),
            Error::TimeoutMsg(m) => prefixed("Timeout: ", m.as_str()),
        }
    }
}

/// The message of an error.
pub open spec fn message_of(e: Error) -> Seq<char> {
    match e {
        Error::Llm(m) => "LLM error: "@ + m@,
        Error::Config(m) => "Configuration error: "@ + m@,
        Error::NotInitialized(m) => "Agent not initialized: "@ + m@,
        Error::ToolExecution { tool, message } => "Tool execution failed: "@ + tool@ + " - "@
            + message@,
        Error::ContextOverflow { current, max } => "Context window exceeded: "@ + crate::text::dec(
            current as nat,
        ) + " tokens > "@ + crate::text::dec(max as nat) + " max"@,
        Error::Memory(m) => "Memory error: "@ + m@,
        Error::ConversationNotFound(m) => "Conversation not found: "@ + m@,
        Error::LoopLimitExceeded { iterations } => "Agent loop limit exceeded: "@
            + crate::text::dec(iterations as nat) + " iterations"@,
        Error::Serialization(m) => "Serialization error: "@ + m@,
        Error::Io(m) => "IO error: "@ + m@,
        Error::InvalidStateTransition { from, to } => "Invalid state transition: "@ + from@
            + " -> "@ + to@,
        Error::Timeout { seconds } => "Operation timed out after "@ + crate::text::dec(
            seconds as nat,
        ) + "s"@,
        Error::Cancelled => "Operation was cancelled"@,
        Error::Agent(m) => "Agent error: "@ + m@,
        Error::NotImplemented(m) => "Not implemented: "@ + m@,
        Error::NotFound(m) => "Not found: "@ + m@,
        Error::ResourceExhausted(m) => "Resource exhausted: "@ + m@,
        Error::Internal(m) => "Internal error: "@ + m@,
        Error::TimeoutMsg(m) => "Timeout: "@ + m@,
    }
}

} // verus!
