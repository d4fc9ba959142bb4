use ember::error::Error;
use ember::orchestrator::{
    AgentConfig, AgentId, AgentMessageType, AgentRole, AgentStatus, Orchestrator, OrchestratorTask,
    WorkflowBuilder,
};

#[test]
fn test_agent_config_builder() {
    let config = AgentConfig::builder()
        .name("TestAgent")
        .role(AgentRole::Coder)
        .description("A test agent")
        .priority(10)
        .build();

    assert_eq!(config.name, "TestAgent");
    assert_eq!(config.role, AgentRole::Coder);
    assert_eq!(config.priority, 10);
}

#[test]
fn test_task_creation() {
    let task = OrchestratorTask::new("Test task").with_role(AgentRole::Coder).with_priority(8);

    assert_eq!(task.description, "Test task");
    assert_eq!(task.required_role, Some(AgentRole::Coder));
    assert_eq!(task.priority, 8);
}

#[test]
fn test_orchestrator_registration() {
    let mut orchestrator = Orchestrator::new();

    let config = AgentConfig::builder().name("TestAgent").role(AgentRole::Coder).build();

    let id = config.id.clone();
    orchestrator.register_agent(config).unwrap();

    let agents = orchestrator.list_agents();
    assert_eq!(agents.len(), 1);

    let status = orchestrator.get_agent_status(&id);
    assert_eq!(status, Some(&AgentStatus::Idle));
}

#[test]
fn test_task_submission() {
    let mut orchestrator = Orchestrator::new();

    let task = OrchestratorTask::new("Test task");
    let task_id = orchestrator.submit_task(task);

    assert!(!task_id.is_empty());
}

#[test]
fn test_workflow_builder() {
    let task1 = OrchestratorTask::new("Task 1");
    let task1_id = task1.id.clone();
    let task2 = OrchestratorTask::new("Task 2");
    let task2_id = task2.id.clone();

    let workflow = WorkflowBuilder::new()
        .add_task(task1)
        .add_task(task2)
        .add_dependency(&task2_id, &task1_id)
        .build();

    assert_eq!(workflow.len(), 2);

    let task2 = workflow.iter().find(|t| t.id == task2_id).unwrap();
    assert!(task2.dependencies.contains(&task1_id));
}

#[test]
fn orchestrator_registration_errors() {
    let mut o = Orchestrator::new();
    let config = AgentConfig::builder().id(AgentId::new("a1")).build();
    o.register_agent(config).unwrap();
    let again = AgentConfig::builder().id(AgentId::new("a1")).build();
    assert_eq!(
        o.register_agent(again),
        Err(Error::Agent("Agent a1 already registered".to_string()))
    );
    assert_eq!(o.unregister_agent(&AgentId::new("zz")), Err(Error::Agent("Agent zz not found".to_string())));
    assert_eq!(o.unregister_agent(&AgentId::new("a1")), Ok(()));
    assert!(o.list_agents().is_empty());
    assert!(Orchestrator::with_default_team().list_agents().is_empty());
}

#[test]
fn orchestrator_queue_orders_by_priority() {
    let mut o = Orchestrator::new();
    let a = o.submit_task(OrchestratorTask::new("a").with_priority(5));
    let b = o.submit_task(OrchestratorTask::new("b").with_priority(9));
    let c = o.submit_task(OrchestratorTask::new("c").with_priority(5));
    let d = o.submit_task(OrchestratorTask::new("d").with_priority(1));
    let order: Vec<&str> = o.pending().iter().map(|t| t.id.as_str()).collect();
    assert_eq!(order, vec![b.as_str(), a.as_str(), c.as_str(), d.as_str()]);
}

#[test]
fn orchestrator_picks_best_agent() {
    let mut o = Orchestrator::new();
    o.register_agent(AgentConfig::builder().id(AgentId::new("c1")).role(AgentRole::Coder).priority(3).build()).unwrap();
    o.register_agent(AgentConfig::builder().id(AgentId::new("r1")).role(AgentRole::Reviewer).priority(9).build()).unwrap();
    o.register_agent(AgentConfig::builder().id(AgentId::new("c2")).role(AgentRole::Coder).priority(3).build()).unwrap();
    let coding = OrchestratorTask::new("code").with_role(AgentRole::Coder);
    assert_eq!(o.find_best_agent(&coding), Some(AgentId::new("c2")));
    let testing = OrchestratorTask::new("test").with_role(AgentRole::Tester);
    assert_eq!(o.find_best_agent(&testing), Some(AgentId::new("r1")));
    let any = OrchestratorTask::new("any");
    assert_eq!(o.find_best_agent(&any), Some(AgentId::new("r1")));
    assert_eq!(Orchestrator::new().find_best_agent(&any), None);
}

#[test]
fn orchestrator_messages_and_consensus() {
    let mut o = Orchestrator::new();
    let answer = o
        .request_consensus(AgentId::new("a"), "Which?", vec!["x".to_string(), "y".to_string()])
        .unwrap();
    assert_eq!(answer, "x");
    assert_eq!(o.request_consensus(AgentId::new("a"), "None?", Vec::new()).unwrap(), "");
    o.broadcast(AgentId::new("b"), serde_json::Value::Null).unwrap();
    let sent = o.take_messages();
    assert_eq!(sent.len(), 3);
    assert_eq!(sent[0].message_type, AgentMessageType::Vote);
    assert_eq!(sent[0].content["question"], "Which?");
    assert_eq!(
        sent[0].content["options"],
        serde_json::Value::Array(vec![
            serde_json::Value::String("x".to_string()),
            serde_json::Value::String("y".to_string())
        ])
    );
    assert_eq!(sent[0].content.as_object().unwrap().len(), 2);
    assert_eq!(sent[1].content["options"], serde_json::Value::Array(Vec::new()));
    assert_eq!(sent[2].message_type, AgentMessageType::Information);
    assert!(sent[2].to.is_none());
    assert!(o.take_messages().is_empty());
}

#[test]
fn workflow_dependencies_accumulate() {
    let t = OrchestratorTask::new("t").depends_on("pre");
    let id = t.id.clone();
    let other = OrchestratorTask::new("o").depends_on("keep");
    let tasks = WorkflowBuilder::new()
        .add_task(t)
        .add_task(other)
        .add_dependency(&id, "x")
        .add_dependency(&id, "y")
        .build();
    assert_eq!(tasks[0].dependencies, vec!["x".to_string(), "y".to_string()]);
    assert_eq!(tasks[1].dependencies, vec!["keep".to_string()]);
}
