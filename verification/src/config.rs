//! The configuration of an agent, with a builder and a validity check.
//!
//! The temperature is kept in hundredths (0 to 200 for 0.0 to 2.0) and the
//! request timeout in milliseconds.

use crate::error::Error;
use crate::text::{chars_of, owned};
use vstd::prelude::*;

verus! {

/// The greatest temperature, in hundredths: 2.0.
pub const MAX_TEMPERATURE: u32 = 200;

/// How an agent remembers.
#[derive(Debug, Clone, Copy, PartialEq, Eq, Structural)]
pub struct MemoryConfig {
    /// Messages kept in short-term memory.
    pub max_short_term_messages: usize,
    /// Whether long-term memory is kept.
    pub long_term_enabled: bool,
    /// Entries kept in long-term memory.
    pub max_long_term_entries: usize,
    /// Whether old conversation is summarized.
    pub auto_summarize: bool,
    /// The number of messages at which summarizing starts.
    pub summarization_threshold: usize,
}

/// The default memory configuration.
pub open spec fn default_memory_config() -> MemoryConfig {
    MemoryConfig {
        max_short_term_messages: 50,
        long_term_enabled: false,
        max_long_term_entries: 1000,
        auto_summarize: false,
        summarization_threshold: 20,
    }
}

impl Default for MemoryConfig {
    fn default() -> (r: Self)
        ensures
            r == default_memory_config(),
    {
        MemoryConfig {
            max_short_term_messages: 50,
            long_term_enabled: false,
            max_long_term_entries: 1000,
            auto_summarize: false,
            summarization_threshold: 20,
        }
    }
}

/// How an agent runs.
#[derive(Debug, Clone)]
pub struct AgentConfig {
    /// The system prompt.
    pub system_prompt: String,
    /// The size of the context window, in tokens.
    pub max_context_tokens: usize,
    /// The most turns of the agent loop.
    pub max_iterations: usize,
    /// The time a model request may take, in milliseconds.
    pub request_timeout_ms: u64,
    /// The sampling temperature, in hundredths (0 to 200).
    pub temperature: u32,
    /// Whether responses stream.
    pub streaming: bool,
    /// Whether tools may be used.
    pub tools_enabled: bool,
    /// The most tool calls in one turn.
    pub max_tool_calls_per_turn: usize,
    /// Whether recoverable errors are retried.
    pub auto_retry: bool,
    /// The most retries.
    pub max_retries: usize,
    /// How the agent remembers.
    pub memory: MemoryConfig,
}

/// Whether a configuration has the default settings, the system prompt
/// aside.
pub open spec fn default_settings(c: AgentConfig) -> bool {
    &&& c.max_context_tokens == 8192
    &&& c.max_iterations == 10
    &&& c.request_timeout_ms == 60_000
    &&& c.temperature == 70
    &&& c.streaming
    &&& c.tools_enabled
    &&& c.max_tool_calls_per_turn == 5
    &&& c.auto_retry
    &&& c.max_retries == 3
    &&& c.memory == default_memory_config()
}

/// The outcome of checking a configuration: the first rule it breaks.
pub open spec fn validation_error(c: AgentConfig) -> Option<Seq<char>> {
    if c.system_prompt@.len() == 0 {
        Some("System prompt cannot be empty"@)
    } else if c.max_context_tokens == 0 {
        Some("Max context tokens must be > 0"@)
    } else if c.max_iterations == 0 {
        Some("Max iterations must be > 0"@)
    } else if c.temperature > MAX_TEMPERATURE {
        Some("Temperature must be between 0.0 and 2.0"@)
    } else {
        None
    }
}

impl Default for AgentConfig {
    fn default() -> (r: Self)
        ensures
            r.system_prompt@ == "You are a helpful AI assistant."@,
            default_settings(r),
    {
        AgentConfig {
            system_prompt: owned("You are a helpful AI assistant."),
            max_context_tokens: 8192,
            max_iterations: 10,
            request_timeout_ms: 60_000,
            temperature: 70,
            streaming: true,
            tools_enabled: true,
            max_tool_calls_per_turn: 5,
            auto_retry: true,
            max_retries: 3,
            memory: MemoryConfig::default(),
        }
    }
}

impl AgentConfig {
    /// A builder that starts from the default configuration.
    pub fn builder() -> (r: AgentConfigBuilder)
        ensures
            r.config.system_prompt@ == "You are a helpful AI assistant."@,
            default_settings(r.config),
    {
        AgentConfigBuilder::new()
    }

    /// Checks the configuration: the system prompt must not be empty, the
    /// context window and the number of turns must not be zero, and the
    /// temperature must lie between 0.0 and 2.0.
    pub fn validate(&self) -> (r: Result<(), Error>)
        ensures
            match validation_error(*self) {
                None => r is Ok,
                Some(msg) => (match r {
                    Err(Error::Config(m)) => m@ == msg,
                    _ => false,
                }),
            },
    {
        if chars_of(self.system_prompt.as_str()).len() == 0 {
            return Err(Error::config("System prompt cannot be empty"));
        }
        if self.max_context_tokens == 0 {
            return Err(Error::config("Max context tokens must be > 0"));
        }
        if self.max_iterations == 0 {
            return Err(Error::config("Max iterations must be > 0"));
        }
        if self.temperature > MAX_TEMPERATURE {
            return Err(Error::config("Temperature must be between 0.0 and 2.0"));
        }
        Ok(())
    }
}

/// Builds an agent configuration from the default one.
#[derive(Debug)]
pub struct AgentConfigBuilder {
    /// The configuration so far.
    pub config: AgentConfig,
}

impl Default for AgentConfigBuilder {
    fn default() -> (r: Self)
        ensures
            r.config.system_prompt@ == "You are a helpful AI assistant."@,
            default_settings(r.config),
    {
        AgentConfigBuilder { config: AgentConfig::default() }
    }
}

impl AgentConfigBuilder {
    /// A builder that starts from the default configuration.
    pub fn new() -> (r: Self)
        ensures
            r.config.system_prompt@ == "You are a helpful AI assistant."@,
            default_settings(r.config),
    {
        AgentConfigBuilder::default()
    }

    /// Sets the system prompt.
    pub fn system_prompt(self, prompt: &str) -> (r: Self)
        ensures
            r.config.system_prompt@ == prompt@,
            r.config == (AgentConfig { system_prompt: r.config.system_prompt, ..self.config }),
    {
        let mut me = self;
        me.config.system_prompt = owned(prompt);
        me
    }

    /// Sets the size of the context window.
    pub fn max_context_tokens(self, tokens: usize) -> (r: Self)
        ensures
            r.config == (AgentConfig { max_context_tokens: tokens, ..self.config }),
    {
        let mut me = self;
        me.config.max_context_tokens = tokens;
        me
    }

    /// Sets the most turns of the agent loop.
    pub fn max_iterations(self, iterations: usize) -> (r: Self)
        ensures
            r.config == (AgentConfig { max_iterations: iterations, ..self.config }),
    {
        let mut me = self;
        me.config.max_iterations = iterations;
        me
    }

    /// Sets the request timeout, in milliseconds.
    pub fn request_timeout(self, timeout_ms: u64) -> (r: Self)
        ensures
            r.config == (AgentConfig { request_timeout_ms: timeout_ms, ..self.config }),
    {
        let mut me = self;
        me.config.request_timeout_ms = timeout_ms;
        me
    }

    /// Sets the temperature, in hundredths, clamped to 0 to 200.
    pub fn temperature(self, temp: i64) -> (r: Self)
        ensures
            r.config.temperature == (if temp < 0 {
                0
            } else if temp > MAX_TEMPERATURE {
                MAX_TEMPERATURE as int
            } else {
                temp as int
            }),
            r.config == (AgentConfig { temperature: r.config.temperature, ..self.config }),
    {
        let mut me = self;
        me.config.temperature = if temp < 0 {
            0
        } else if temp > MAX_TEMPERATURE as i64 {
            MAX_TEMPERATURE
        } else {
            temp as u32
        };
        me
    }

    /// Turns streaming on or off.
    pub fn streaming(self, enabled: bool) -> (r: Self)
        ensures
            r.config == (AgentConfig { streaming: enabled, ..self.config }),
    {
        let mut me = self;
        me.config.streaming = enabled;
        me
    }

    /// Turns tools on or off.
    pub fn tools_enabled(self, enabled: bool) -> (r: Self)
        ensures
            r.config == (AgentConfig { tools_enabled: enabled, ..self.config }),
    {
        let mut me = self;
        me.config.tools_enabled = enabled;
        me
    }

    /// Sets the most tool calls in one turn.
    pub fn max_tool_calls_per_turn(self, max: usize) -> (r: Self)
        ensures
            r.config == (AgentConfig { max_tool_calls_per_turn: max, ..self.config }),
    {
        let mut me = self;
        me.config.max_tool_calls_per_turn = max;
        me
    }

    /// Turns retrying on or off.
    pub fn auto_retry(self, enabled: bool) -> (r: Self)
        ensures
            r.config == (AgentConfig { auto_retry: enabled, ..self.config }),
    {
        let mut me = self;
        me.config.auto_retry = enabled;
        me
    }

    /// Sets the most retries.
    pub fn max_retries(self, retries: usize) -> (r: Self)
        ensures
            r.config == (AgentConfig { max_retries: retries, ..self.config }),
    {
        let mut me = self;
        me.config.max_retries = retries;
        me
    }

    /// Sets how the agent remembers.
    pub fn memory(self, memory: MemoryConfig) -> (r: Self)
        ensures
            r.config == (AgentConfig { memory, ..self.config }),
    {
        let mut me = self;
        me.config.memory = memory;
        me
    }

    /// Turns long-term memory on.
    pub fn with_long_term_memory(self) -> (r: Self)
        ensures
            r.config == (AgentConfig {
                memory: MemoryConfig { long_term_enabled: true, ..self.config.memory },
                ..self.config
            }),
    {
        let mut me = self;
        me.config.memory.long_term_enabled = true;
        me
    }

    /// Turns summarizing on, from the number of messages.
    pub fn with_auto_summarize(self, threshold: usize) -> (r: Self)
        ensures
            r.config == (AgentConfig {
                memory: MemoryConfig {
                    auto_summarize: true,
                    summarization_threshold: threshold,
                    ..self.config.memory
                },
                ..self.config
            }),
    {
        let mut me = self;
        me.config.memory.auto_summarize = true;
        me.config.memory.summarization_threshold = threshold;
        me
    }

    /// The configuration.
    pub fn build(self) -> (r: AgentConfig)
        ensures
            r == self.config,
    {
        self.config
    }
}

/// The default configuration is valid.
pub proof fn lemma_default_valid(c: AgentConfig)
    requires
        c.system_prompt@ == "You are a helpful AI assistant."@,
        default_settings(c),
    ensures
        validation_error(c) is None,
{
    reveal_strlit("You are a helpful AI assistant.");
}

} // verus!
