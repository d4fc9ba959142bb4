//! The agent's state machine: which state changes are allowed, and the
//! decisions of the agent loop between model calls and tool runs. The
//! calls themselves are made by the caller, which reports what came back.

use crate::error::Error;
use crate::text::owned;
use vstd::prelude::*;

verus! {

/// The state of an agent.
#[derive(Debug, Clone, Copy, PartialEq, Eq, Structural)]
pub enum AgentState {
    /// Idle, waiting for input.
    Idle,
    /// Thinking (processing user input).
    Thinking,
    /// Executing a tool.
    ExecutingTool,
    /// Generating a response.
    Generating,
    /// In an error state.
    Error,
}

/// The snake_case name of a state.
pub open spec fn state_name(s: AgentState) -> Seq<char> {
    match s {
        AgentState::Idle => "idle"@,
        AgentState::Thinking => "thinking"@,
        AgentState::ExecutingTool => "executing_tool"@,
        AgentState::Generating => "generating"@,
        AgentState::Error => "error"@,
    }
}

impl AgentState {
    /// The snake_case name of this state.
    pub fn to_string(&self) -> (r: String)
        ensures
            r@ == state_name(*self),
    {
        match self {
            AgentState::Idle => crate::text::owned("idle"),
            AgentState::Thinking => crate::text::owned("thinking"),
            AgentState::ExecutingTool => crate::text::owned("executing_tool"),
            AgentState::Generating => crate::text::owned("generating"),
            AgentState::Error => crate::text::owned("error"),
        }
    }
}

/// Whether the agent may go from one state to another: idle to thinking,
/// thinking to generating or error, generating to executing a tool,
/// executing a tool to generating, thinking or error; and any state to
/// idle.
pub open spec fn transition_allowed(from: AgentState, to: AgentState) -> bool {
    to == AgentState::Idle || match (from, to) {
        (AgentState::Idle, AgentState::Thinking) => true,
        (AgentState::Thinking, AgentState::Generating) => true,
        (AgentState::Thinking, AgentState::Error) => true,
        (AgentState::Generating, AgentState::ExecutingTool) => true,
        (AgentState::ExecutingTool, AgentState::Generating) => true,
        (AgentState::ExecutingTool, AgentState::Thinking) => true,
        (AgentState::ExecutingTool, AgentState::Error) => true,
        _ => false,
    }
}

/// The state after a requested change: the new state when the change is
/// allowed, or an invalid-transition error naming both states.
pub fn transition(from: AgentState, to: AgentState) -> (r: Result<AgentState, Error>)
    ensures
        transition_allowed(from, to) ==> r == Ok::<AgentState, Error>(to),
        !transition_allowed(from, to) ==> (match r {
            Err(Error::InvalidStateTransition { from: f, to: t }) => f@ == state_name(from) && t@
                == state_name(to),
            _ => false,
        }),
{
    let allowed = match (from, to) {
        (_, AgentState::Idle) => true,
        (AgentState::Idle, AgentState::Thinking) => true,
        (AgentState::Thinking, AgentState::Generating) => true,
        (AgentState::Thinking, AgentState::Error) => true,
        (AgentState::Generating, AgentState::ExecutingTool) => true,
        (AgentState::ExecutingTool, AgentState::Generating) => true,
        (AgentState::ExecutingTool, AgentState::Thinking) => true,
        (AgentState::ExecutingTool, AgentState::Error) => true,
        _ => false,
    };
    if allowed {
        Ok(to)
    } else {
        Err(Error::InvalidStateTransition { from: from.to_string(), to: to.to_string() })
    }
}

/// Any state can return to idle.
pub proof fn lemma_idle_always_reachable(s: AgentState)
    ensures
        transition_allowed(s, AgentState::Idle),
{
}

/// What the agent loop does after a model response.
#[derive(Debug, Clone, PartialEq, Eq)]
pub enum LoopDecision {
    /// Run the requested tools, then ask the model again.
    RunTools,
    /// The final answer.
    Finish {
        /// The answer.
        content: String,
        /// Whether tools were used on the way.
        tool_calls_made: bool,
        /// The number of model calls.
        iterations: usize,
    },
}

/// The agent loop: it counts model calls against a limit and follows the
/// agent's state.
#[derive(Debug, Clone, Copy, PartialEq, Eq, Structural)]
pub struct AgentLoop {
    /// Model calls so far.
    pub iterations: usize,
    /// The most model calls.
    pub max_iterations: usize,
    /// The agent's state.
    pub state: AgentState,
}

impl AgentLoop {
    /// A loop that has made no call yet, in the state.
    pub fn new(max_iterations: usize, state: AgentState) -> (r: AgentLoop)
        ensures
            r == (AgentLoop { iterations: 0, max_iterations, state }),
    {
        AgentLoop { iterations: 0, max_iterations, state }
    }

    /// Before a model call: counts it, fails past the limit, and moves to
    /// generating.
    pub fn begin_iteration(&mut self) -> (r: Result<(), Error>)
        ensures
            old(self).iterations == usize::MAX ==> (r matches Err(Error::LoopLimitExceeded {
                iterations,
            }) && iterations == usize::MAX) && *final(self) == *old(self),
            old(self).iterations < usize::MAX ==> final(self).iterations == old(self).iterations + 1,
            old(self).iterations < usize::MAX && old(self).iterations + 1 > old(self).max_iterations
                ==> (r matches Err(Error::LoopLimitExceeded { iterations }) && iterations == old(
                self,
            ).iterations + 1) && final(self).state == old(self).state,
            old(self).iterations < usize::MAX && old(self).iterations + 1 <= old(self).max_iterations
                ==> (if transition_allowed(old(self).state, AgentState::Generating) {
                r is Ok && final(self).state == AgentState::Generating
            } else {
                (match r {
                    Err(Error::InvalidStateTransition { from: f, to: t }) => f@ == state_name(
                        old(self).state,
                    ) && t@ == state_name(AgentState::Generating),
                    _ => false,
                }) && final(self).state == old(self).state
            }),
            final(self).max_iterations == old(self).max_iterations,
    {
        if self.iterations == usize::MAX {
            return Err(Error::LoopLimitExceeded { iterations: usize::MAX });
        }
        self.iterations = self.iterations + 1;
        if self.iterations > self.max_iterations {
            return Err(Error::LoopLimitExceeded { iterations: self.iterations });
        }
        match transition(self.state, AgentState::Generating) {
            Ok(s) => {
                self.state = s;
                Ok(())
            },
            Err(e) => Err(e),
        }
    }

    /// After a model response with its text and its number of tool calls:
    /// tools to run (moving to executing a tool), the final answer, or an
    /// error for an empty response.
    pub fn after_response(&mut self, content: &str, tool_calls: usize) -> (r: Result<LoopDecision, Error>)
        ensures
            final(self).iterations == old(self).iterations,
            final(self).max_iterations == old(self).max_iterations,
            tool_calls > 0 ==> (if transition_allowed(old(self).state, AgentState::ExecutingTool) {
                r == Ok::<LoopDecision, Error>(LoopDecision::RunTools) && final(self).state
                    == AgentState::ExecutingTool
            } else {
                (match r {
                    Err(Error::InvalidStateTransition { from: f, to: t }) => f@ == state_name(
                        old(self).state,
                    ) && t@ == state_name(AgentState::ExecutingTool),
                    _ => false,
                }) && final(self).state == old(self).state
            }),
            tool_calls == 0 && content@.len() > 0 ==> (match r {
                Ok(LoopDecision::Finish { content: c, tool_calls_made, iterations }) => c@
                    == content@ && tool_calls_made == (old(self).iterations > 1) && iterations
                    == old(self).iterations,
                _ => false,
            }) && final(self).state == old(self).state,
            tool_calls == 0 && content@.len() == 0 ==> (match r {
                Err(Error::Config(m)) => m@ == "Received empty response from LLM"@,
                _ => false,
            }) && final(self).state == old(self).state,
    {
        if tool_calls > 0 {
            match transition(self.state, AgentState::ExecutingTool) {
                Ok(s) => {
                    self.state = s;
                    Ok(LoopDecision::RunTools)
                },
                Err(e) => Err(e),
            }
        } else if crate::text::chars_of(content).len() > 0 {
            Ok(
                LoopDecision::Finish {
                    content: owned(content),
                    tool_calls_made: self.iterations > 1,
                    iterations: self.iterations,
                },
            )
        } else {
            Err(Error::config("Received empty response from LLM"))
        }
    }
}

} // verus!
