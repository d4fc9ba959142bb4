//! Agents of a multi-agent team: identities, roles, statuses, the queue of
//! tasks by priority, the choice of the agent a task goes to, and
//! workflows of dependent tasks.

use crate::clock::now_millis;
use crate::collaboration::{find_key, key_index, lemma_key_index};
use crate::error::Error;
use crate::json::{clone_value, json_array, json_array_of, json_object, json_object_of, json_string, json_string_of, null_value};
use crate::text::{copy_strings, extend_str, owned, str_eq, string_from_chars, string_views};
use vstd::prelude::*;

verus! {

/// Unique identifier of an agent.
#[derive(Debug, Clone, PartialEq, Eq, Hash)]
pub struct AgentId(pub String);

impl AgentId {
    /// An agent ID with the given text.
    pub fn new(id: &str) -> (r: AgentId)
        ensures
            r.0@ == id@,
    {
        AgentId(crate::text::owned(id))
    }

    /// A fresh random agent ID (a version-4 UUID).
    pub fn generate() -> (r: AgentId)
        ensures
            r.0@.len() == 36,
    {
        AgentId(crate::ids::new_uuid_v4())
    }
}

/// What an agent is specialized in.
#[derive(Debug, Clone, PartialEq, Eq, Hash)]
pub enum AgentRole {
    /// General purpose agent.
    General,
    /// Writing code.
    Coder,
    /// Research and information gathering.
    Researcher,
    /// Code review and quality assurance.
    Reviewer,
    /// Planning and architecture.
    Architect,
    /// Testing and validation.
    Tester,
    /// Documentation.
    Documenter,
    /// A custom role with its description.
    Custom(String),
}

/// Prompt text for a general purpose agent: none.
pub const GENERAL_PROMPT: &'static str = "";
/// Prompt text for a coding agent.
pub const CODER_PROMPT: &'static str = "You are an expert software engineer specializing in writing clean, efficient, and well-documented code.";
/// Prompt text for a research agent.
pub const RESEARCHER_PROMPT: &'static str = "You are an expert researcher skilled at finding information, analyzing data, and synthesizing insights.";
/// Prompt text for an agent that inspects code for defects.
pub const REVIEWER_PROMPT: &'static str = "You are an expert in code review, focused on finding bugs, security issues, and suggesting improvements.";
/// Prompt text for an architecture agent.
pub const ARCHITECT_PROMPT: &'static str = "You are an expert software architect skilled at designing scalable, maintainable systems.";
/// Prompt text for a testing agent.
pub const TESTER_PROMPT: &'static str = "You are an expert QA engineer focused on writing comprehensive tests and finding edge cases.";
/// Prompt text for a documentation agent.
pub const DOCUMENTER_PROMPT: &'static str = "You are an expert technical writer skilled at creating clear, comprehensive documentation.";

impl AgentRole {
    /// The text a role adds to an agent's system prompt.
    pub open spec fn prompt_spec(&self) -> Seq<char> {
        match self {
            AgentRole::General => GENERAL_PROMPT@,
            AgentRole::Coder => CODER_PROMPT@,
            AgentRole::Researcher => RESEARCHER_PROMPT@,
            AgentRole::Reviewer => REVIEWER_PROMPT@,
            AgentRole::Architect => ARCHITECT_PROMPT@,
            AgentRole::Tester => TESTER_PROMPT@,
            AgentRole::Documenter => DOCUMENTER_PROMPT@,
            AgentRole::Custom(desc) => desc@,
        }
    }

    /// The system prompt modifier of this role; a custom role gives its
    /// own description.
    pub fn system_prompt_modifier(&self) -> (r: &str)
        ensures
            r@ == self.prompt_spec(),
    {
        match self {
            AgentRole::General => GENERAL_PROMPT,
            AgentRole::Coder => CODER_PROMPT,
            AgentRole::Researcher => RESEARCHER_PROMPT,
            AgentRole::Reviewer => REVIEWER_PROMPT,
            AgentRole::Architect => ARCHITECT_PROMPT,
            AgentRole::Tester => TESTER_PROMPT,
            AgentRole::Documenter => DOCUMENTER_PROMPT,
            AgentRole::Custom(desc) => desc.as_str(),
        }
    }
}

/// Status of an agent.
#[derive(Debug, Clone, PartialEq, Eq)]
pub enum AgentStatus {
    /// Idle and ready for tasks.
    Idle,
    /// Working on a task.
    Working,
    /// Waiting for input from another agent.
    Waiting,
    /// Done with its task.
    Completed,
    /// Failed with an error.
    Error(String),
}

/// Types of messages agents send each other.
#[derive(Debug, Clone, Copy, PartialEq, Eq, Structural)]
pub enum AgentMessageType {
    /// Request for help with a task.
    HelpRequest,
    /// Response to a help request.
    HelpResponse,
    /// Sharing information.
    Information,
    /// Task delegation.
    Delegation,
    /// Task result.
    Result,
    /// Vote on a decision.
    Vote,
    /// Consensus reached.
    Consensus,
}

/// Whether two roles are the same; custom roles by their description.
pub open spec fn role_eq(a: AgentRole, b: AgentRole) -> bool {
    match (a, b) {
        (AgentRole::Custom(x), AgentRole::Custom(y)) => x@ == y@,
        (AgentRole::Custom(_), _) => false,
        (_, AgentRole::Custom(_)) => false,
        _ => a == b,
    }
}

/// Whether two roles are the same; custom roles by their description.
pub fn same_role(a: &AgentRole, b: &AgentRole) -> (r: bool)
    ensures
        r == role_eq(*a, *b),
{
    match (a, b) {
        (AgentRole::General, AgentRole::General) => true,
        (AgentRole::Coder, AgentRole::Coder) => true,
        (AgentRole::Researcher, AgentRole::Researcher) => true,
        (AgentRole::Reviewer, AgentRole::Reviewer) => true,
        (AgentRole::Architect, AgentRole::Architect) => true,
        (AgentRole::Tester, AgentRole::Tester) => true,
        (AgentRole::Documenter, AgentRole::Documenter) => true,
        (AgentRole::Custom(x), AgentRole::Custom(y)) => str_eq(x.as_str(), y.as_str()),
        _ => false,
    }
}

/// The settings of an agent of the team.
#[derive(Debug, Clone)]
pub struct AgentConfig {
    /// Its identifier.
    pub id: AgentId,
    /// Its role.
    pub role: AgentRole,
    /// Its name.
    pub name: String,
    /// What it does.
    pub description: String,
    /// The most tasks it works on at once.
    pub max_concurrent_tasks: usize,
    /// How much it counts: higher first.
    pub priority: u8,
    /// Its model, if not the default.
    pub model: Option<String>,
    /// Its temperature in hundredths, if not the default.
    pub temperature: Option<u32>,
}

/// Whether a configuration has the default settings, its identifier aside.
pub open spec fn default_agent(c: AgentConfig) -> bool {
    &&& c.role == AgentRole::General
    &&& c.name@ == "Agent"@
    &&& c.description@ == "A general purpose agent"@
    &&& c.max_concurrent_tasks == 1
    &&& c.priority == 5
    &&& c.model is None
    &&& c.temperature is None
}

impl Default for AgentConfig {
    fn default() -> (r: Self)
        ensures
            default_agent(r),
            r.id.0@.len() == 36,
    {
        AgentConfig {
            id: AgentId::generate(),
            role: AgentRole::General,
            name: owned("Agent"),
            description: owned("A general purpose agent"),
            max_concurrent_tasks: 1,
            priority: 5,
            model: None,
            temperature: None,
        }
    }
}

impl AgentConfig {
    /// A builder that starts from the default settings.
    pub fn builder() -> (r: AgentConfigBuilder)
        ensures
            default_agent(r.config),
    {
        AgentConfigBuilder { config: AgentConfig::default() }
    }
}

/// Builds an agent's settings.
#[derive(Debug)]
pub struct AgentConfigBuilder {
    /// The settings so far.
    pub config: AgentConfig,
}

impl Default for AgentConfigBuilder {
    fn default() -> (r: Self)
        ensures
            default_agent(r.config),
    {
        AgentConfigBuilder { config: AgentConfig::default() }
    }
}

impl AgentConfigBuilder {
    /// Sets the identifier.
    pub fn id(self, id: AgentId) -> (r: Self)
        ensures
            r.config == (AgentConfig { id, ..self.config }),
    {
        let mut me = self;
        me.config.id = id;
        me
    }

    /// Sets the role.
    pub fn role(self, role: AgentRole) -> (r: Self)
        ensures
            r.config == (AgentConfig { role, ..self.config }),
    {
        let mut me = self;
        me.config.role = role;
        me
    }

    /// Sets the name.
    pub fn name(self, name: &str) -> (r: Self)
        ensures
            r.config.name@ == name@,
            r.config == (AgentConfig { name: r.config.name, ..self.config }),
    {
        let mut me = self;
        me.config.name = owned(name);
        me
    }

    /// Sets the description.
    pub fn description(self, description: &str) -> (r: Self)
        ensures
            r.config.description@ == description@,
            r.config == (AgentConfig { description: r.config.description, ..self.config }),
    {
        let mut me = self;
        me.config.description = owned(description);
        me
    }

    /// Sets the most tasks at once.
    pub fn max_concurrent_tasks(self, max: usize) -> (r: Self)
        ensures
            r.config == (AgentConfig { max_concurrent_tasks: max, ..self.config }),
    {
        let mut me = self;
        me.config.max_concurrent_tasks = max;
        me
    }

    /// Sets the priority.
    pub fn priority(self, priority: u8) -> (r: Self)
        ensures
            r.config == (AgentConfig { priority, ..self.config }),
    {
        let mut me = self;
        me.config.priority = priority;
        me
    }

    /// Sets the model.
    pub fn model(self, model: &str) -> (r: Self)
        ensures
            r.config.model matches Some(m) && m@ == model@,
            r.config == (AgentConfig { model: r.config.model, ..self.config }),
    {
        let mut me = self;
        me.config.model = Some(owned(model));
        me
    }

    /// Sets the temperature, in hundredths.
    pub fn temperature(self, temperature: u32) -> (r: Self)
        ensures
            r.config == (AgentConfig { temperature: Some(temperature), ..self.config }),
    {
        let mut me = self;
        me.config.temperature = Some(temperature);
        me
    }

    /// The settings.
    pub fn build(self) -> (r: AgentConfig)
        ensures
            r == self.config,
    {
        self.config
    }
}

/// A task for the team.
#[derive(Debug)]
pub struct OrchestratorTask {
    /// Its identifier.
    pub id: String,
    /// What is to be done.
    pub description: String,
    /// The role it needs, if any.
    pub required_role: Option<AgentRole>,
    /// How urgent it is: higher first.
    pub priority: u8,
    /// The tasks that must finish first.
    pub dependencies: Vec<String>,
    /// Its input.
    pub input: serde_json::Value,
    /// Its deadline, in seconds from now.
    pub deadline: Option<u64>,
}

impl OrchestratorTask {
    /// A task with a fresh identifier, priority 5, no role, no
    /// dependencies, null input and no deadline.
    pub fn new(description: &str) -> (r: OrchestratorTask)
        ensures
            r.id@.len() == 36,
            r.description@ == description@,
            r.required_role is None,
            r.priority == 5,
            r.dependencies@.len() == 0,
            r.deadline is None,
    {
        OrchestratorTask {
            id: crate::ids::new_uuid_v4(),
            description: owned(description),
            required_role: None,
            priority: 5,
            dependencies: Vec::new(),
            input: null_value(),
            deadline: None,
        }
    }

    /// The task, needing the role.
    pub fn with_role(self, role: AgentRole) -> (r: OrchestratorTask)
        ensures
            r == (OrchestratorTask { required_role: Some(role), ..self }),
    {
        let mut me = self;
        me.required_role = Some(role);
        me
    }

    /// The task with the priority.
    pub fn with_priority(self, priority: u8) -> (r: OrchestratorTask)
        ensures
            r == (OrchestratorTask { priority, ..self }),
    {
        let mut me = self;
        me.priority = priority;
        me
    }

    /// The task, depending on another.
    pub fn depends_on(self, task_id: &str) -> (r: OrchestratorTask)
        ensures
            string_views(r.dependencies@) == string_views(self.dependencies@).push(task_id@),
            r == (OrchestratorTask { dependencies: r.dependencies, ..self }),
    {
        let mut me = self;
        let ghost d0 = me.dependencies@;
        me.dependencies.push(owned(task_id));
        assert(string_views(me.dependencies@) =~= string_views(d0).push(task_id@));
        me
    }

    /// The task with the input.
    pub fn with_input(self, input: serde_json::Value) -> (r: OrchestratorTask)
        ensures
            r == (OrchestratorTask { input, ..self }),
    {
        let mut me = self;
        me.input = input;
        me
    }
}

/// The outcome of a task.
#[derive(Debug)]
pub struct TaskResult {
    /// The task.
    pub task_id: String,
    /// The agent that did it.
    pub agent_id: AgentId,
    /// Whether it succeeded.
    pub success: bool,
    /// Its output.
    pub output: serde_json::Value,
    /// The error, if it failed.
    pub error: Option<String>,
    /// How long it took, in milliseconds.
    pub execution_time_ms: u64,
    /// How sure the agent is, in thousandths.
    pub confidence: u32,
}

/// A message between agents.
#[derive(Debug)]
pub struct AgentMessage {
    /// The sender.
    pub from: AgentId,
    /// The recipient; none for everyone.
    pub to: Option<AgentId>,
    /// Its kind.
    pub message_type: AgentMessageType,
    /// Its content.
    pub content: serde_json::Value,
    /// When it was sent, in milliseconds since the Unix epoch.
    pub timestamp: i64,
}

/// The first agent with the identifier.
pub open spec fn agent_index(agents: Seq<(AgentConfig, AgentStatus)>, id: Seq<char>) -> Option<int>
    decreases agents.len(),
{
    if agents.len() == 0 {
        None
    } else {
        match agent_index(agents.drop_last(), id) {
            Some(i) => Some(i),
            None => if agents.last().0.id.0@ == id {
                Some(agents.len() - 1)
            } else {
                None
            },
        }
    }
}

/// Whether an agent may take a task: it is idle and, when a role is
/// given, has that role.
pub open spec fn eligible(a: (AgentConfig, AgentStatus), role: Option<AgentRole>) -> bool {
    a.1 == AgentStatus::Idle && match role {
        Some(r) => role_eq(a.0.role, r),
        None => true,
    }
}

/// Among the first `n` agents, the last eligible one of the highest
/// priority.
pub open spec fn best_agent(agents: Seq<(AgentConfig, AgentStatus)>, role: Option<AgentRole>, n: nat) -> Option<int>
    decreases n,
{
    if n == 0 || n > agents.len() {
        None
    } else {
        let b = best_agent(agents, role, (n - 1) as nat);
        if eligible(agents[n - 1], role) && match b {
            Some(k) => agents[n - 1].0.priority >= agents[k].0.priority,
            None => true,
        } {
            Some(n - 1)
        } else {
            b
        }
    }
}

/// The agent a task goes to: the best idle agent of the required role, if
/// there is one; else the best idle agent.
pub open spec fn chosen_agent(agents: Seq<(AgentConfig, AgentStatus)>, required: Option<AgentRole>) -> Option<int> {
    match required {
        Some(r) => match best_agent(agents, Some(r), agents.len()) {
            Some(k) => Some(k),
            None => best_agent(agents, None, agents.len()),
        },
        None => best_agent(agents, None, agents.len()),
    }
}

/// Where a task goes in the queue, looking from index `i` on: before the
/// first task of lower priority.
pub open spec fn queue_pos(q: Seq<OrchestratorTask>, priority: u8, i: nat) -> nat
    decreases q.len() - i,
{
    if i >= q.len() {
        q.len()
    } else if q[i as int].priority < priority {
        i
    } else {
        queue_pos(q, priority, i + 1)
    }
}

/// The team, its task queue, the results and the messages sent.
#[derive(Debug)]
pub struct Orchestrator {
    agents: Vec<(AgentConfig, AgentStatus)>,
    pending: Vec<OrchestratorTask>,
    results: Vec<TaskResult>,
    outbox: Vec<AgentMessage>,
    stopped: bool,
}

impl Default for Orchestrator {
    fn default() -> (r: Self)
        ensures
            r.agent_list().len() == 0,
            r.pending_tasks().len() == 0,
            r.result_list().len() == 0,
            r.sent().len() == 0,
            !r.is_shut_down(),
    {
        Orchestrator::new()
    }
}

proof fn lemma_agent_index(agents: Seq<(AgentConfig, AgentStatus)>, id: Seq<char>)
    ensures
        agent_index(agents, id) matches Some(i) ==> 0 <= i < agents.len() && agents[i].0.id.0@
            == id,
        agent_index(agents, id) is None ==> forall|j: int|
            0 <= j < agents.len() ==> #[trigger] agents[j].0.id.0@ != id,
    decreases agents.len(),
{
    if agents.len() > 0 {
        lemma_agent_index(agents.drop_last(), id);
        if agent_index(agents, id) is None {
            assert forall|j: int| 0 <= j < agents.len() implies #[trigger] agents[j].0.id.0@ != id by {
                if j < agents.len() - 1 {
                    assert(agents.drop_last()[j] == agents[j]);
                }
            }
        }
    }
}

proof fn lemma_best_agent(agents: Seq<(AgentConfig, AgentStatus)>, role: Option<AgentRole>, n: nat)
    ensures
        best_agent(agents, role, n) matches Some(k) ==> 0 <= k < n && k < agents.len() && eligible(
            agents[k],
            role,
        ),
    decreases n,
{
    if n > 0 && n <= agents.len() {
        lemma_best_agent(agents, role, (n - 1) as nat);
    }
}

proof fn lemma_queue_pos(q: Seq<OrchestratorTask>, priority: u8, i: nat)
    requires
        i <= q.len(),
    ensures
        i <= queue_pos(q, priority, i) <= q.len(),
    decreases q.len() - i,
{
    if i < q.len() && !(q[i as int].priority < priority) {
        lemma_queue_pos(q, priority, i + 1);
    }
}

impl Orchestrator {
    /// The agents in the order they joined, with their statuses.
    pub closed spec fn agent_list(&self) -> Seq<(AgentConfig, AgentStatus)> {
        self.agents@
    }

    /// The tasks waiting, most urgent first.
    pub closed spec fn pending_tasks(&self) -> Seq<OrchestratorTask> {
        self.pending@
    }

    /// The results recorded.
    pub closed spec fn result_list(&self) -> Seq<TaskResult> {
        self.results@
    }

    /// The messages sent and not yet taken.
    pub closed spec fn sent(&self) -> Seq<AgentMessage> {
        self.outbox@
    }

    /// Whether the orchestrator was shut down.
    pub closed spec fn is_shut_down(&self) -> bool {
        self.stopped
    }

    /// An orchestrator with no agents and no tasks.
    pub fn new() -> (r: Self)
        ensures
            r.agent_list().len() == 0,
            r.pending_tasks().len() == 0,
            r.result_list().len() == 0,
            r.sent().len() == 0,
            !r.is_shut_down(),
    {
        Orchestrator {
            agents: Vec::new(),
            pending: Vec::new(),
            results: Vec::new(),
            outbox: Vec::new(),
            stopped: false,
        }
    }

    /// An orchestrator for the default team. The team's settings are made
    /// but not registered: the orchestrator starts empty.
    pub fn with_default_team() -> (r: Self)
        ensures
            r.agent_list().len() == 0,
            r.pending_tasks().len() == 0,
            r.result_list().len() == 0,
            r.sent().len() == 0,
            !r.is_shut_down(),
    {
        Orchestrator::new()
    }

    fn find_agent(&self, id: &AgentId) -> (r: Option<usize>)
        ensures
            match r {
                Some(i) => agent_index(self.agent_list(), id.0@) == Some(i as int) && i
                    < self.agent_list().len(),
                None => agent_index(self.agent_list(), id.0@) is None,
            },
    {
        let ghost a = self.agents@;
        let mut i: usize = 0;
        while i < self.agents.len()
            invariant
                i <= a.len(),
                a == self.agents@,
                agent_index(a.take(i as int), id.0@) is None,
            decreases a.len() - i,
        {
            assert(a.take(i + 1).drop_last() =~= a.take(i as int));
            if str_eq(self.agents[i].0.id.0.as_str(), id.0.as_str()) {
                proof {
                    lemma_agent_index_prefix(a, i + 1, id.0@);
                }
                return Some(i);
            }
            i += 1;
        }
        assert(a.take(a.len() as int) =~= a);
        None
    }

    /// Registers an agent, idle. An agent whose identifier is already
    /// registered is refused.
    pub fn register_agent(&mut self, config: AgentConfig) -> (r: Result<(), Error>)
        ensures
            final(self).pending_tasks() == old(self).pending_tasks(),
            final(self).result_list() == old(self).result_list(),
            final(self).sent() == old(self).sent(),
            final(self).is_shut_down() == old(self).is_shut_down(),
            match agent_index(old(self).agent_list(), config.id.0@) {
                Some(_) => (match r {
                    Err(Error::Agent(m)) => m@ == "Agent "@ + config.id.0@ + " already registered"@,
                    _ => false,
                }) && final(self).agent_list() == old(self).agent_list(),
                None => r is Ok && final(self).agent_list() == old(self).agent_list().push(
                    (config, AgentStatus::Idle),
                ),
            },
    {
        match self.find_agent(&config.id) {
            Some(_) => {
                let mut m: Vec<char> = Vec::new();
                extend_str(&mut m, "Agent ");
                extend_str(&mut m, config.id.0.as_str());
                extend_str(&mut m, " already registered");
                Err(Error::Agent(string_from_chars(&m)))
            },
            None => {
                self.agents.push((config, AgentStatus::Idle));
                Ok(())
            },
        }
    }

    /// Removes an agent. An unknown identifier is an error.
    pub fn unregister_agent(&mut self, id: &AgentId) -> (r: Result<(), Error>)
        ensures
            final(self).pending_tasks() == old(self).pending_tasks(),
            final(self).result_list() == old(self).result_list(),
            final(self).sent() == old(self).sent(),
            final(self).is_shut_down() == old(self).is_shut_down(),
            match agent_index(old(self).agent_list(), id.0@) {
                Some(i) => r is Ok && final(self).agent_list() == old(self).agent_list().remove(i),
                None => (match r {
                    Err(Error::Agent(m)) => m@ == "Agent "@ + id.0@ + " not found"@,
                    _ => false,
                }) && final(self).agent_list() == old(self).agent_list(),
            },
    {
        match self.find_agent(id) {
            Some(i) => {
                self.agents.remove(i);
                Ok(())
            },
            None => {
                let mut m: Vec<char> = Vec::new();
                extend_str(&mut m, "Agent ");
                extend_str(&mut m, id.0.as_str());
                extend_str(&mut m, " not found");
                Err(Error::Agent(string_from_chars(&m)))
            },
        }
    }

    /// The agents' settings, in the order they joined.
    pub fn list_agents(&self) -> (r: Vec<&AgentConfig>)
        ensures
            r@.len() == self.agent_list().len(),
            forall|i: int| 0 <= i < r@.len() ==> *r@[i] == self.agent_list()[i].0,
    {
        let mut out: Vec<&AgentConfig> = Vec::new();
        let mut i: usize = 0;
        while i < self.agents.len()
            invariant
                i <= self.agents@.len(),
                out@.len() == i,
                forall|j: int| 0 <= j < i ==> *out@[j] == self.agents@[j].0,
            decreases self.agents@.len() - i,
        {
            out.push(&self.agents[i].0);
            i += 1;
        }
        out
    }

    /// The status of an agent.
    pub fn get_agent_status(&self, id: &AgentId) -> (r: Option<&AgentStatus>)
        ensures
            r == (match agent_index(self.agent_list(), id.0@) {
                Some(i) => Some(&self.agent_list()[i].1),
                None => None,
            }),
    {
        match self.find_agent(id) {
            Some(i) => Some(&self.agents[i].1),
            None => None,
        }
    }

    /// Queues a task after every task of its priority or higher, and
    /// returns its identifier.
    pub fn submit_task(&mut self, task: OrchestratorTask) -> (r: String)
        ensures
            r@ == task.id@,
            final(self).agent_list() == old(self).agent_list(),
            final(self).result_list() == old(self).result_list(),
            final(self).sent() == old(self).sent(),
            final(self).is_shut_down() == old(self).is_shut_down(),
            final(self).pending_tasks() == old(self).pending_tasks().insert(
                queue_pos(old(self).pending_tasks(), task.priority, 0) as int,
                task,
            ),
    {
        let id = owned(task.id.as_str());
        let ghost q = self.pending@;
        proof {
            lemma_queue_pos(q, task.priority, 0);
        }
        let mut p: usize = 0;
        while p < self.pending.len() && !(self.pending[p].priority < task.priority)
            invariant
                p <= self.pending@.len(),
                q == self.pending@,
                queue_pos(q, task.priority, 0) == queue_pos(q, task.priority, p as nat),
            decreases self.pending@.len() - p,
        {
            p += 1;
        }
        self.pending.insert(p, task);
        id
    }

    /// The tasks waiting, most urgent first.
    pub fn pending(&self) -> (r: &[OrchestratorTask])
        ensures
            r@ == self.pending_tasks(),
    {
        self.pending.as_slice()
    }

    /// The result of a task.
    pub fn get_result(&self, task_id: &str) -> (r: Option<&TaskResult>)
        ensures
            match r {
                Some(t) => exists|i: int|
                    0 <= i < self.result_list().len() && self.result_list()[i] == *t && t.task_id@
                        == task_id@ && forall|j: int|
                        0 <= j < i ==> #[trigger] self.result_list()[j].task_id@ != task_id@,
                None => forall|j: int|
                    0 <= j < self.result_list().len() ==> #[trigger] self.result_list()[j].task_id@
                        != task_id@,
            },
    {
        let mut i: usize = 0;
        while i < self.results.len()
            invariant
                i <= self.results@.len(),
                forall|j: int| 0 <= j < i ==> #[trigger] self.results@[j].task_id@ != task_id@,
            decreases self.results@.len() - i,
        {
            if str_eq(self.results[i].task_id.as_str(), task_id) {
                return Some(&self.results[i]);
            }
            i += 1;
        }
        None
    }

    /// Records the result of a task.
    pub fn record_result(&mut self, result: TaskResult)
        ensures
            final(self).result_list() == old(self).result_list().push(result),
            final(self).agent_list() == old(self).agent_list(),
            final(self).pending_tasks() == old(self).pending_tasks(),
            final(self).sent() == old(self).sent(),
            final(self).is_shut_down() == old(self).is_shut_down(),
    {
        self.results.push(result);
    }

    fn best_among(&self, role: &Option<AgentRole>) -> (r: Option<usize>)
        ensures
            match r {
                Some(k) => best_agent(self.agent_list(), *role, self.agent_list().len()) == Some(
                    k as int,
                ),
                None => best_agent(self.agent_list(), *role, self.agent_list().len()) is None,
            },
    {
        let mut best: Option<usize> = None;
        let mut i: usize = 0;
        while i < self.agents.len()
            invariant
                i <= self.agents@.len(),
                match best {
                    Some(k) => best_agent(self.agents@, *role, i as nat) == Some(k as int),
                    None => best_agent(self.agents@, *role, i as nat) is None,
                },
            decreases self.agents@.len() - i,
        {
            proof {
                lemma_best_agent(self.agents@, *role, i as nat);
            }
            let a = &self.agents[i];
            let idle = match &a.1 {
                AgentStatus::Idle => true,
                _ => false,
            };
            let fits = match role {
                Some(r) => same_role(&a.0.role, r),
                None => true,
            };
            if idle && fits {
                let better = match best {
                    Some(k) => a.0.priority >= self.agents[k].0.priority,
                    None => true,
                };
                if better {
                    best = Some(i);
                }
            }
            i += 1;
        }
        best
    }

    /// The agent a task goes to: among the idle agents, the one of the
    /// required role with the highest priority when there is one, else the
    /// one with the highest priority; of equals, the one that joined last.
    pub fn find_best_agent(&self, task: &OrchestratorTask) -> (r: Option<AgentId>)
        ensures
            match chosen_agent(self.agent_list(), task.required_role) {
                Some(k) => r matches Some(id) && id.0@ == self.agent_list()[k].0.id.0@,
                None => r is None,
            },
    {
        proof {
            lemma_best_agent(self.agents@, task.required_role, self.agents@.len());
            lemma_best_agent(self.agents@, None, self.agents@.len());
        }
        let pick = match &task.required_role {
            Some(_) => match self.best_among(&task.required_role) {
                Some(k) => Some(k),
                None => self.best_among(&None),
            },
            None => self.best_among(&None),
        };
        match pick {
            Some(k) => Some(AgentId::new(self.agents[k].0.id.0.as_str())),
            None => None,
        }
    }

    /// Sends a message between agents.
    pub fn send_message(&mut self, message: AgentMessage) -> (r: Result<(), Error>)
        ensures
            r is Ok,
            final(self).sent() == old(self).sent().push(message),
            final(self).agent_list() == old(self).agent_list(),
            final(self).pending_tasks() == old(self).pending_tasks(),
            final(self).result_list() == old(self).result_list(),
            final(self).is_shut_down() == old(self).is_shut_down(),
    {
        self.outbox.push(message);
        Ok(())
    }

    /// Sends information from an agent to every agent, stamped now.
    pub fn broadcast(&mut self, from: AgentId, content: serde_json::Value) -> (r: Result<(), Error>)
        ensures
            r is Ok,
            final(self).sent().len() == old(self).sent().len() + 1,
            final(self).sent().drop_last() == old(self).sent(),
            final(self).sent().last().from == from,
            final(self).sent().last().to is None,
            final(self).sent().last().message_type == AgentMessageType::Information,
            final(self).sent().last().content == content,
            final(self).agent_list() == old(self).agent_list(),
            final(self).pending_tasks() == old(self).pending_tasks(),
    {
        let message = AgentMessage {
            from,
            to: None,
            message_type: AgentMessageType::Information,
            content,
            timestamp: now_millis(),
        };
        let r = self.send_message(message);
        assert(self.outbox@.drop_last() =~= old(self).outbox@);
        r
    }

    /// Asks every agent to vote on a question among options, and answers
    /// with the first option (or nothing when there are none).
    pub fn request_consensus(&mut self, from: AgentId, question: &str, options: Vec<String>) -> (r: Result<String, Error>)
        ensures
            r matches Ok(answer) && (if options@.len() > 0 {
                answer@ == options@[0]@
            } else {
                answer@.len() == 0
            }),
            final(self).sent().len() == old(self).sent().len() + 1,
            final(self).sent().drop_last() == old(self).sent(),
            final(self).sent().last().from == from,
            final(self).sent().last().to is None,
            final(self).sent().last().message_type == AgentMessageType::Vote,
            final(self).sent().last().content == vote_request(question@, string_views(options@)),
            crate::clock::in_clock_range(final(self).sent().last().timestamp as int),
            final(self).agent_list() == old(self).agent_list(),
            final(self).pending_tasks() == old(self).pending_tasks(),
    {
        let answer = if options.len() > 0 {
            owned(options[0].as_str())
        } else {
            String::new()
        };
        let content = vote_content(question, &options);
        let message = AgentMessage {
            from,
            to: None,
            message_type: AgentMessageType::Vote,
            content,
            timestamp: now_millis(),
        };
        self.outbox.push(message);
        assert(self.outbox@.drop_last() =~= old(self).outbox@);
        Ok(answer)
    }

    /// Takes the messages sent so far, oldest first.
    pub fn take_messages(&mut self) -> (r: Vec<AgentMessage>)
        ensures
            r@ == old(self).sent(),
            final(self).sent().len() == 0,
            final(self).agent_list() == old(self).agent_list(),
            final(self).pending_tasks() == old(self).pending_tasks(),
            final(self).result_list() == old(self).result_list(),
            final(self).is_shut_down() == old(self).is_shut_down(),
    {
        let mut out: Vec<AgentMessage> = Vec::new();
        std::mem::swap(&mut out, &mut self.outbox);
        out
    }

    /// Shuts the orchestrator down.
    pub fn shutdown(&mut self)
        ensures
            final(self).is_shut_down(),
            final(self).agent_list() == old(self).agent_list(),
            final(self).pending_tasks() == old(self).pending_tasks(),
            final(self).result_list() == old(self).result_list(),
            final(self).sent() == old(self).sent(),
    {
        self.stopped = true;
    }
}

proof fn lemma_agent_index_prefix(a: Seq<(AgentConfig, AgentStatus)>, n: int, id: Seq<char>)
    requires
        0 < n <= a.len(),
        agent_index(a.take(n - 1), id) is None,
        a[n - 1].0.id.0@ == id,
    ensures
        agent_index(a, id) == Some(n - 1),
    decreases a.len(),
{
    assert(a.take(n).drop_last() =~= a.take(n - 1));
    if n < a.len() {
        assert(a.drop_last().take(n) =~= a.take(n));
        assert(a.drop_last().take(n - 1) =~= a.take(n - 1));
        lemma_agent_index_prefix(a.drop_last(), n, id);
    } else {
        assert(a.take(n) =~= a);
    }
}

/// The content of a vote request: the object with the question under
/// `question` and the options, as an array of strings, under `options`.
pub open spec fn vote_request(question: Seq<char>, options: Seq<Seq<char>>) -> serde_json::Value {
    json_object_of(
        seq![
            ("question"@, json_string_of(question)),
            ("options"@, json_array_of(options.map_values(|o: Seq<char>| json_string_of(o)))),
        ],
    )
}

/// The content of a vote request; see `vote_request`.
fn vote_content(question: &str, options: &Vec<String>) -> (r: serde_json::Value)
    ensures
        r == vote_request(question@, string_views(options@)),
{
    let mut items: Vec<serde_json::Value> = Vec::new();
    let mut i: usize = 0;
    while i < options.len()
        invariant
            i <= options@.len(),
            items@ == string_views(options@).take(i as int).map_values(
                |o: Seq<char>| json_string_of(o),
            ),
        decreases options@.len() - i,
    {
        items.push(json_string(options[i].as_str()));
        assert(string_views(options@).take(i + 1) =~= string_views(options@).take(i as int).push(
            options@[i as int]@,
        ));
        assert(items@ =~= string_views(options@).take(i + 1).map_values(
            |o: Seq<char>| json_string_of(o),
        ));
        i += 1;
    }
    assert(string_views(options@).take(options@.len() as int) =~= string_views(options@));
    let mut entries: Vec<(String, serde_json::Value)> = Vec::new();
    entries.push((owned("question"), json_string(question)));
    entries.push((owned("options"), json_array(items)));
    let r = json_object(entries);
    assert(entries@.map_values(|e: (String, serde_json::Value)| (e.0@, e.1)) =~= seq![
        ("question"@, json_string_of(question@)),
        ("options"@, json_array_of(string_views(options@).map_values(|o: Seq<char>| json_string_of(o)))),
    ]);
    r
}

/// The dependencies recorded for a task, if any.
pub open spec fn deps_of(d: Seq<(String, Vec<String>)>, task_id: Seq<char>) -> Option<Seq<Seq<char>>> {
    match key_index(d, task_id) {
        Some(i) => Some(string_views(d[i].1@)),
        None => None,
    }
}

/// The task as a workflow builds it: with the recorded dependencies, when
/// there are any.
pub open spec fn with_deps(t: OrchestratorTask, d: Seq<(String, Vec<String>)>) -> Seq<Seq<char>> {
    match deps_of(d, t.id@) {
        Some(ds) => ds,
        None => string_views(t.dependencies@),
    }
}

/// Builds a workflow: tasks and the dependencies between them.
#[derive(Debug)]
pub struct WorkflowBuilder {
    tasks: Vec<OrchestratorTask>,
    dependencies: Vec<(String, Vec<String>)>,
}

impl Default for WorkflowBuilder {
    fn default() -> (r: Self)
        ensures
            r.task_list().len() == 0,
            r.dep_list().len() == 0,
    {
        WorkflowBuilder { tasks: Vec::new(), dependencies: Vec::new() }
    }
}

impl WorkflowBuilder {
    /// The tasks added, in order.
    pub closed spec fn task_list(&self) -> Seq<OrchestratorTask> {
        self.tasks@
    }

    /// The dependencies recorded, by task.
    pub closed spec fn dep_list(&self) -> Seq<(String, Vec<String>)> {
        self.dependencies@
    }

    /// An empty workflow.
    pub fn new() -> (r: Self)
        ensures
            r.task_list().len() == 0,
            r.dep_list().len() == 0,
    {
        WorkflowBuilder { tasks: Vec::new(), dependencies: Vec::new() }
    }

    /// Adds a task.
    pub fn add_task(self, task: OrchestratorTask) -> (r: Self)
        ensures
            r.task_list() == self.task_list().push(task),
            r.dep_list() == self.dep_list(),
    {
        let mut me = self;
        me.tasks.push(task);
        me
    }

    /// Records that a task depends on another.
    pub fn add_dependency(self, task_id: &str, depends_on: &str) -> (r: Self)
        ensures
            r.task_list() == self.task_list(),
            deps_of(r.dep_list(), task_id@) == Some(
                match deps_of(self.dep_list(), task_id@) {
                    Some(ds) => ds,
                    None => Seq::<Seq<char>>::empty(),
                }.push(depends_on@),
            ),
            forall|k: Seq<char>| k != task_id@ ==> deps_of(r.dep_list(), k) == deps_of(self.dep_list(), k),
    {
        let mut me = self;
        let ghost d0 = me.dependencies@;
        proof {
            lemma_key_index(d0, task_id@);
        }
        match find_key(&me.dependencies, task_id) {
            Some(i) => {
                let mut list = copy_strings(&me.dependencies[i].1);
                let ghost l0 = string_views(list@);
                list.push(owned(depends_on));
                assert(string_views(list@) =~= l0.push(depends_on@));
                me.dependencies.set(i, (owned(task_id), list));
                proof {
                    let d1 = me.dependencies@;
                    assert forall|j: int| 0 <= j < d1.len() implies #[trigger] d1[j].0@ == d0[j].0@ by {}
                    lemma_key_index_same_keys(d0, d1);
                    assert forall|k: Seq<char>| k != task_id@ implies deps_of(d1, k) == deps_of(d0, k) by {
                        lemma_key_index(d0, k);
                        assert(key_index(d1, k) == key_index(d0, k));
                        if let Some(j) = key_index(d0, k) {
                            assert(j != i);
                            assert(d1[j] == d0[j]);
                        }
                    }
                }
            },
            None => {
                let mut list: Vec<String> = Vec::new();
                list.push(owned(depends_on));
                assert(string_views(list@) =~= Seq::<Seq<char>>::empty().push(depends_on@));
                me.dependencies.push((owned(task_id), list));
                proof {
                    let d1 = me.dependencies@;
                    assert(d1.drop_last() =~= d0);
                    lemma_key_index(d1, task_id@);
                    assert forall|k: Seq<char>| k != task_id@ implies deps_of(d1, k) == deps_of(d0, k) by {
                        assert(d1.drop_last() =~= d0);
                        assert(d1.last().0@ == task_id@);
                        assert(key_index(d1, k) == key_index(d0, k));
                        lemma_key_index(d0, k);
                        if let Some(j) = key_index(d0, k) {
                            assert(d1[j] == d0[j]);
                        }
                    }
                }
            },
        }
        me
    }

    /// The tasks in the order they were added, each with the dependencies
    /// recorded for it.
    pub fn build(self) -> (r: Vec<OrchestratorTask>)
        ensures
            r@.len() == self.task_list().len(),
            forall|i: int| 0 <= i < r@.len() ==> (#[trigger] r@[i]) == (OrchestratorTask {
                dependencies: r@[i].dependencies,
                ..self.task_list()[i]
            }) && string_views(r@[i].dependencies@) == with_deps(self.task_list()[i], self.dep_list()),
    {
        let ghost all = self.tasks@;
        let deps = self.dependencies;
        let mut rest = self.tasks;
        let n = rest.len();
        let mut out: Vec<OrchestratorTask> = Vec::new();
        while rest.len() > 0
            invariant
                all.len() == n,
                out@.len() + rest@.len() == n,
                rest@ == all.skip(out@.len() as int),
                deps@ == self.dependencies@,
                forall|i: int| 0 <= i < out@.len() ==> (#[trigger] out@[i]) == (OrchestratorTask {
                    dependencies: out@[i].dependencies,
                    ..all[i]
                }) && string_views(out@[i].dependencies@) == with_deps(all[i], deps@),
            decreases rest@.len(),
        {
            let mut t = rest.remove(0);
            let ghost k = out@.len() as int;
            assert(t == all[k]);
            assert(rest@ =~= all.skip(k + 1));
            proof {
                lemma_key_index(deps@, t.id@);
            }
            match find_key(&deps, t.id.as_str()) {
                Some(j) => {
                    t.dependencies = copy_strings(&deps[j].1);
                },
                None => {},
            }
            out.push(t);
        }
        out
    }
}

/// Replacing an entry by one under the same key moves no key.
proof fn lemma_key_index_same_keys(d0: Seq<(String, Vec<String>)>, d1: Seq<(String, Vec<String>)>)
    requires
        d0.len() == d1.len(),
        forall|j: int| 0 <= j < d1.len() ==> #[trigger] d1[j].0@ == d0[j].0@,
    ensures
        forall|k: Seq<char>| key_index(d1, k) == key_index(d0, k),
    decreases d0.len(),
{
    if d0.len() > 0 {
        assert forall|j: int| 0 <= j < d1.len() - 1 implies #[trigger] d1.drop_last()[j].0@
            == d0.drop_last()[j].0@ by {
            assert(d1.drop_last()[j] == d1[j]);
            assert(d0.drop_last()[j] == d0[j]);
        }
        lemma_key_index_same_keys(d0.drop_last(), d1.drop_last());
        assert(d1.last().0@ == d0.last().0@);
        assert forall|k: Seq<char>| key_index(d1, k) == key_index(d0, k) by {
            assert(key_index(d1.drop_last(), k) == key_index(d0.drop_last(), k));
        }
    }
}

/// Whether tasks are ordered most urgent first.
pub open spec fn by_urgency(q: Seq<OrchestratorTask>) -> bool {
    forall|a: int, b: int| 0 <= a < b < q.len() ==> q[a].priority >= q[b].priority
}

proof fn lemma_queue_pos_split(q: Seq<OrchestratorTask>, priority: u8, i: nat)
    requires
        by_urgency(q),
        i <= q.len(),
        forall|j: int| 0 <= j < i ==> #[trigger] q[j].priority >= priority,
    ensures
        forall|j: int| 0 <= j < queue_pos(q, priority, i) ==> #[trigger] q[j].priority >= priority,
        forall|j: int| queue_pos(q, priority, i) <= j < q.len() ==> #[trigger] q[j].priority < priority,
    decreases q.len() - i,
{
    if i < q.len() {
        if q[i as int].priority < priority {
            assert forall|j: int| i <= j < q.len() implies #[trigger] q[j].priority < priority by {
                if j > i {
                    assert(q[i as int].priority >= q[j].priority);
                }
            }
        } else {
            lemma_queue_pos_split(q, priority, i + 1);
        }
    }
}

/// The queue stays ordered by urgency: a submitted task goes after every
/// task of its priority or higher and before every task of lower priority.
pub proof fn lemma_submit_keeps_order(q: Seq<OrchestratorTask>, t: OrchestratorTask)
    requires
        by_urgency(q),
    ensures
        by_urgency(q.insert(queue_pos(q, t.priority, 0) as int, t)),
{
    lemma_queue_pos(q, t.priority, 0);
    lemma_queue_pos_split(q, t.priority, 0);
    let p = queue_pos(q, t.priority, 0) as int;
    let r = q.insert(p, t);
    assert forall|x: int| 0 <= x < r.len() implies #[trigger] r[x] == (if x < p {
        q[x]
    } else if x == p {
        t
    } else {
        q[x - 1]
    }) by {}
    assert forall|a: int, b: int| 0 <= a < b < r.len() implies r[a].priority >= r[b].priority by {
        assert(r[a] == r[a]);
        assert(r[b] == r[b]);
    }
}

/// The agent chosen among those eligible has the highest priority of them.
pub proof fn lemma_best_agent_highest(
    agents: Seq<(AgentConfig, AgentStatus)>,
    role: Option<AgentRole>,
    n: nat,
)
    requires
        n <= agents.len(),
    ensures
        best_agent(agents, role, n) matches Some(k) ==> eligible(agents[k], role) && forall|j: int|
            0 <= j < n && eligible(#[trigger] agents[j], role) ==> agents[j].0.priority
                <= agents[k].0.priority,
        best_agent(agents, role, n) is None ==> forall|j: int|
            0 <= j < n ==> !eligible(#[trigger] agents[j], role),
    decreases n,
{
    if n > 0 {
        lemma_best_agent_highest(agents, role, (n - 1) as nat);
        lemma_best_agent(agents, role, (n - 1) as nat);
    }
}

} // verus!
