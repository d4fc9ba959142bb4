use ember::collaboration::{
    ACPMessage, ACPMessageType, AccessControl, CollaborativeTask, ConsensusEvent,
    ConsensusManager, Proposal, ProposalStatus, SessionId, SharedMemory, SharedMemoryEvent,
    TaskDelegator, TaskEvent, TaskStatus,
};
use ember::error::Error;
use serde_json::Value;

fn now_ms() -> i64 {
    chrono::Utc::now().timestamp_millis()
}

fn hour_from_now() -> i64 {
    now_ms() + 3_600_000
}

#[test]
fn test_acp_message_creation() {
    let session = SessionId::generate();
    let msg = ACPMessage::new("agent-1", session.clone(), ACPMessageType::Request, Value::String("test".into()))
        .to("agent-2")
        .with_priority(8);
    assert_eq!(msg.sender, "agent-1");
    assert_eq!(msg.recipient, Some("agent-2".to_string()));
    assert_eq!(msg.priority, 8);
    assert_eq!(msg.version, "1.0.0");
    assert_eq!(msg.session_id, session);
}

#[test]
fn test_acp_message_reply() {
    let session = SessionId::generate();
    let msg = ACPMessage::new("agent-1", session, ACPMessageType::Request, Value::Null);
    let reply = msg.reply("agent-2", Value::Bool(true));
    assert_eq!(reply.sender, "agent-2");
    assert_eq!(reply.recipient, Some("agent-1".to_string()));
    assert_eq!(reply.correlation_id, Some(msg.id.clone()));
    assert_eq!(reply.message_type, ACPMessageType::Response);
    assert_eq!(reply.priority, 5);
}

#[test]
fn acp_message_expiry_and_metadata() {
    let session = SessionId::new("s-1");
    assert_eq!(session.to_string(), "s-1");
    let msg = ACPMessage::new_at("a", session, ACPMessageType::Ping, Value::Null, 1_000).with_ttl(2);
    assert!(!msg.is_expired_at(3_000));
    assert!(msg.is_expired_at(3_001));
    let msg = msg.with_metadata("k", Value::Bool(true)).with_metadata("k", Value::Bool(false));
    assert_eq!(msg.metadata.len(), 1);
    assert_eq!(msg.metadata[0].1, Value::Bool(false));
    let msg = msg.with_correlation("c-9");
    assert_eq!(msg.correlation_id.as_deref(), Some("c-9"));
}

#[test]
fn test_shared_memory_basic() {
    let mut memory = SharedMemory::new();
    memory.set("key1", Value::String("value1".into()), "agent-1").unwrap();
    let value = memory.get("key1", "agent-1");
    assert!(value.is_some());
    assert_eq!(value.unwrap().value, Value::String("value1".into()));
    let events = memory.take_events();
    assert_eq!(events.len(), 1);
    assert!(matches!(events[0], SharedMemoryEvent::Created { .. }));
}

#[test]
fn test_shared_memory_versioning() {
    let mut memory = SharedMemory::new();
    let v1 = memory.set("key", Value::from(1), "agent-1").unwrap();
    let v2 = memory.set("key", Value::from(2), "agent-1").unwrap();
    assert_eq!(v1, 1);
    assert_eq!(v2, 2);
    let events = memory.take_events();
    assert!(matches!(events[1], SharedMemoryEvent::Updated { .. }));
}

#[test]
fn shared_memory_access_control() {
    let mut memory = SharedMemory::new();
    memory.set("k", Value::from(1), "owner").unwrap();
    // Another agent may read (public) but not write.
    assert!(memory.get("k", "other").is_some());
    let err = memory.set("k", Value::from(2), "other").unwrap_err();
    assert_eq!(err, Error::Agent("Agent other does not have write access to key k".to_string()));
    // The owner makes the key private with a reader.
    let acl = AccessControl {
        readers: vec!["reader".to_string()],
        writers: vec![],
        owner: "owner".to_string(),
        is_public: false,
    };
    assert!(memory.set_acl("k", acl.clone(), "other").is_err());
    memory.set_acl("k", acl, "owner").unwrap();
    assert!(memory.get("k", "other").is_none());
    assert!(memory.get("k", "reader").is_some());
    assert!(memory.delete("k", "reader").is_err());
    memory.delete("k", "owner").unwrap();
    assert!(memory.get("k", "owner").is_none());
}

#[test]
fn shared_memory_cas_keys_and_tags() {
    let mut memory = SharedMemory::new();
    memory.set_with_tags("alpha", Value::from(1), "a", vec!["t1".to_string()]).unwrap();
    memory.set("beta", Value::from(2), "a").unwrap();
    let err = memory.compare_and_swap("alpha", 7, Value::from(3), "a").unwrap_err();
    assert_eq!(err, Error::Agent("Version conflict: expected 7, found 1".to_string()));
    assert_eq!(memory.compare_and_swap("alpha", 1, Value::from(3), "a").unwrap(), 2);
    assert_eq!(memory.list_keys(Some("lph")), vec!["alpha".to_string()]);
    assert_eq!(memory.list_keys(None).len(), 2);
    let tagged = memory.find_by_tag("t1");
    assert_eq!(tagged.len(), 0);
    memory.set_with_tags("beta", Value::from(5), "a", vec!["t1".to_string()]).unwrap();
    let tagged = memory.find_by_tag("t1");
    assert_eq!(tagged.len(), 1);
    assert_eq!(tagged[0].0, "beta");
}

#[test]
fn test_task_delegation() {
    let mut delegator = TaskDelegator::new();
    delegator.register_capabilities("agent-1", vec!["coding".to_string()]);
    let task = CollaborativeTask::new("Write code", "user").with_capabilities(vec!["coding".to_string()]);
    let task_id = delegator.submit_task(task);
    let task = delegator.get_task(&task_id).unwrap();
    let agent = delegator.find_best_agent(task);
    assert_eq!(agent, Some("agent-1".to_string()));
}

#[test]
fn delegation_prefers_least_loaded_and_tracks_workload() {
    let mut delegator = TaskDelegator::with_max_tasks(1);
    delegator.register_capabilities("a", vec!["x".to_string()]);
    delegator.register_capabilities("b", vec!["x".to_string(), "y".to_string()]);
    let t1 = delegator.submit_task(CollaborativeTask::new("one", "u").with_capabilities(vec!["x".to_string()]));
    let t2 = delegator.submit_task(CollaborativeTask::new("two", "u").with_capabilities(vec!["y".to_string()]));
    delegator.assign_task(&t1, "a").unwrap();
    assert_eq!(delegator.get_workload("a"), 1);
    assert!(matches!(delegator.assign_task(&t1, "a"), Err(Error::Agent(_))));
    let first = delegator.get_task(&t1).unwrap();
    assert_eq!(first.status, TaskStatus::Assigned);
    assert_eq!(delegator.find_best_agent(first), Some("b".to_string()));
    let second = delegator.get_task(&t2).unwrap();
    assert_eq!(delegator.find_best_agent(second), Some("b".to_string()));
    delegator.update_progress(&t1, 250).unwrap();
    assert_eq!(delegator.get_task(&t1).unwrap().progress, 100);
    delegator.complete_task(&t1, Value::from(42)).unwrap();
    assert_eq!(delegator.get_workload("a"), 0);
    assert_eq!(delegator.get_task(&t1).unwrap().status, TaskStatus::Completed);
    delegator.fail_task(&t2, "boom").unwrap();
    assert_eq!(delegator.get_task(&t2).unwrap().error.as_deref(), Some("boom"));
    assert_eq!(delegator.list_tasks(Some(TaskStatus::Failed)).len(), 1);
    assert_eq!(delegator.list_tasks(None).len(), 2);
    let err = delegator.update_progress("missing", 1).unwrap_err();
    assert_eq!(err, Error::Agent("Task missing not found".to_string()));
    let events = delegator.take_events();
    assert!(matches!(events[0], TaskEvent::Created(_)));
    assert!(matches!(events.last().unwrap(), TaskEvent::Failed { .. }));
}

#[test]
fn test_proposal_voting() {
    let mut proposal = Proposal::new("Choose color", "agent-1", vec!["red".to_string(), "blue".to_string()], hour_from_now());
    proposal.vote("agent-2", 0).unwrap();
    proposal.vote("agent-3", 0).unwrap();
    proposal.vote("agent-4", 1).unwrap();
    let winner = proposal.tally(4);
    assert_eq!(winner, Some(0));
    assert_eq!(proposal.status, ProposalStatus::Decided);
}

#[test]
fn test_proposal_tie() {
    let mut proposal = Proposal::new("Choose color", "agent-1", vec!["red".to_string(), "blue".to_string()], hour_from_now());
    proposal.vote("agent-2", 0).unwrap();
    proposal.vote("agent-3", 1).unwrap();
    let winner = proposal.tally(2);
    assert_eq!(winner, None);
    assert_eq!(proposal.status, ProposalStatus::Failed);
}

#[test]
fn proposal_vote_refusals_and_quorum() {
    let mut p = Proposal::new("q", "a", vec!["x".to_string()], 1_000).with_quorum(150);
    assert_eq!(p.quorum, 100);
    assert_eq!(p.vote_at("b", 0, 2_000), Err("Voting deadline has passed".to_string()));
    assert_eq!(p.vote_at("b", 3, 500), Err("Invalid option index".to_string()));
    p.vote_at("b", 0, 500).unwrap();
    assert_eq!(p.vote_at("b", 0, 500), Err("Agent has already voted".to_string()));
    assert!(!p.has_quorum(2));
    assert!(p.has_quorum(1));
    assert_eq!(p.tally(2), None);
    assert_eq!(p.status, ProposalStatus::Failed);
    assert_eq!(p.vote_at("c", 0, 500), Err("Proposal is not open for voting".to_string()));
    p.veto("z");
    assert_eq!(p.status, ProposalStatus::Vetoed);
}

#[test]
fn consensus_manager_tallies_when_all_voted() {
    let mut manager = ConsensusManager::new();
    manager.set_agent_count(2);
    let p = Proposal::new("pick", "a", vec!["x".to_string(), "y".to_string()], hour_from_now());
    let id = manager.create_proposal(p);
    manager.vote(&id, "a", 1).unwrap();
    assert_eq!(manager.get_proposal(&id).unwrap().status, ProposalStatus::Open);
    manager.vote(&id, "b", 1).unwrap();
    assert_eq!(manager.get_proposal(&id).unwrap().status, ProposalStatus::Decided);
    assert_eq!(manager.get_proposal(&id).unwrap().winner, Some(1));
    assert_eq!(manager.list_proposals(Some(ProposalStatus::Decided)).len(), 1);
    let err = manager.vote("nope", "a", 0).unwrap_err();
    assert_eq!(err, Error::Agent("Proposal nope not found".to_string()));
    let events = manager.take_events();
    assert!(matches!(events[0], ConsensusEvent::ProposalCreated(_)));
    match events.last().unwrap() {
        ConsensusEvent::ConsensusReached { winner, option, .. } => {
            assert_eq!(*winner, 1);
            assert_eq!(option, "y");
        }
        other => panic!("unexpected event {other:?}"),
    }
}

#[test]
fn collaborative_task_builders() {
    let t = CollaborativeTask::new_at("d", "r", 10).with_priority(42).with_deadline(20);
    assert_eq!(t.priority, 10);
    assert!(!t.is_overdue_at(20));
    assert!(t.is_overdue_at(21));
    assert_eq!(t.status, TaskStatus::Pending);
}

#[test]
fn error_messages_and_recoverability() {
    assert_eq!(Error::Agent("x".to_string()).message(), "Agent error: x");
    assert_eq!(Error::ContextOverflow { current: 10, max: 5 }.message(), "Context window exceeded: 10 tokens > 5 max");
    assert_eq!(Error::tool_execution("ls", "denied").message(), "Tool execution failed: ls - denied");
    assert_eq!(Error::Timeout { seconds: 3 }.message(), "Operation timed out after 3s");
    assert!(Error::memory("m").is_recoverable());
    assert!(Error::Timeout("t").is_recoverable());
    assert!(!Error::Cancelled.is_recoverable());
    assert!(!Error::config("c").is_recoverable());
}

#[test]
fn register_capabilities_replaces_earlier_ones() {
    let mut delegator = TaskDelegator::new();
    delegator.register_capabilities("a", vec!["x".to_string()]);
    delegator.register_capabilities("a", vec!["y".to_string()]);
    let tx = delegator.submit_task(CollaborativeTask::new("one", "u").with_capabilities(vec!["x".to_string()]));
    let ty = delegator.submit_task(CollaborativeTask::new("two", "u").with_capabilities(vec!["y".to_string()]));
    assert_eq!(delegator.find_best_agent(delegator.get_task(&tx).unwrap()), None);
    assert_eq!(delegator.find_best_agent(delegator.get_task(&ty).unwrap()), Some("a".to_string()));
    assert_eq!(delegator.get_workload("a"), 0);
}

#[test]
fn repeated_tags_are_kept_once() {
    let mut memory = SharedMemory::new();
    let tags = vec!["b".to_string(), "a".to_string(), "b".to_string(), "a".to_string()];
    memory.set_with_tags("k", Value::from(1), "agent", tags).unwrap();
    let stored = memory.get("k", "agent").unwrap();
    assert_eq!(stored.tags, vec!["b".to_string(), "a".to_string()]);
}
