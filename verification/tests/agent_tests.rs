use ember::agent::{transition, AgentLoop, AgentState, LoopDecision};
use ember::error::Error;
use ember::orchestrator::{AgentId, AgentRole};

#[test]
fn test_agent_state_display() {
    assert_eq!(AgentState::Idle.to_string(), "idle");
    assert_eq!(AgentState::Thinking.to_string(), "thinking");
    assert_eq!(AgentState::ExecutingTool.to_string(), "executing_tool");
}

#[test]
fn agent_state_names() {
    assert_eq!(AgentState::Generating.to_string(), "generating");
    assert_eq!(AgentState::Error.to_string(), "error");
}

#[test]
fn role_prompts_and_ids() {
    let custom = AgentRole::Custom(String::from("You write haiku."));
    assert_ne!(custom, AgentRole::General);
    assert_eq!(AgentId::new("agent-1").0, "agent-1");
    let a = AgentId::generate();
    let b = AgentId::generate();
    assert_eq!(a.0.len(), 36);
    assert_eq!(&a.0[14..15], "4");
    assert_ne!(a, b);
}

#[test]
fn test_agent_role_prompt() {
    assert!(AgentRole::Coder.system_prompt_modifier().contains("engineer"));
    assert!(AgentRole::Researcher.system_prompt_modifier().contains("research"));
    assert!(AgentRole::Reviewer.system_prompt_modifier().contains("review"));
}

#[test]
fn test_custom_role_prompt_is_description() {
    let role = AgentRole::Custom("Translate docs".to_string());
    assert_eq!(role.system_prompt_modifier(), "Translate docs");
    assert_eq!(AgentRole::General.system_prompt_modifier(), "");
}

#[test]
fn agent_state_transitions() {
    assert_eq!(transition(AgentState::Idle, AgentState::Thinking), Ok(AgentState::Thinking));
    assert_eq!(transition(AgentState::Generating, AgentState::Idle), Ok(AgentState::Idle));
    assert_eq!(transition(AgentState::Error, AgentState::Idle), Ok(AgentState::Idle));
    assert_eq!(
        transition(AgentState::ExecutingTool, AgentState::Thinking),
        Ok(AgentState::Thinking)
    );
    assert_eq!(
        transition(AgentState::Idle, AgentState::Generating),
        Err(Error::InvalidStateTransition { from: "idle".to_string(), to: "generating".to_string() })
    );
}

#[test]
fn agent_loop_counts_calls_and_decides() {
    let mut l = AgentLoop::new(2, AgentState::Thinking);
    assert_eq!(l.begin_iteration(), Ok(()));
    assert_eq!(l.state, AgentState::Generating);
    assert_eq!(l.after_response("", 1), Ok(LoopDecision::RunTools));
    assert_eq!(l.state, AgentState::ExecutingTool);
    assert_eq!(l.begin_iteration(), Ok(()));
    assert_eq!(
        l.after_response("done", 0),
        Ok(LoopDecision::Finish { content: "done".to_string(), tool_calls_made: true, iterations: 2 })
    );
    assert_eq!(l.begin_iteration(), Err(Error::LoopLimitExceeded { iterations: 3 }));
    let mut e = AgentLoop::new(5, AgentState::Thinking);
    e.begin_iteration().unwrap();
    assert_eq!(e.after_response("", 0), Err(Error::Config("Received empty response from LLM".to_string())));
}
