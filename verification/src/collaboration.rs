//! Multi-agent collaboration: the agent communication protocol, shared
//! memory with access control, task delegation, and consensus by vote.
//!
//! The collaboration services record the events they emit in an outbox;
//! the caller takes them out and delivers them.

use crate::error::Error;
use crate::text::{
    chars_of, contains_str, copy_strings, extend_str, lemma_unique_views, owned, str_eq, string_from_chars,
    string_views, unique_strings, unique_views,
};
use vstd::prelude::*;

verus! {

/// The protocol version.
pub const ACP_VERSION: &'static str = "1.0.0";

/// Identifier of a collaboration session.
#[derive(Debug, Clone, PartialEq, Eq, Hash)]
pub struct SessionId(pub String);

impl SessionId {
    /// A session ID with the given text.
    pub fn new(id: &str) -> (r: SessionId)
        ensures
            r.0@ == id@,
    {
        SessionId(owned(id))
    }

    /// A fresh random session ID (a version-4 UUID).
    pub fn generate() -> (r: SessionId)
        ensures
            r.0@.len() == 36,
    {
        SessionId(crate::ids::new_uuid_v4())
    }

    /// The ID's text.
    pub fn to_string(&self) -> (r: String)
        ensures
            r@ == self.0@,
    {
        owned(self.0.as_str())
    }
}

/// Types of protocol messages.
#[derive(Debug, Clone, PartialEq, Eq)]
pub enum ACPMessageType {
    /// An agent announces itself.
    Announce,
    /// A query for agents with capabilities.
    Discovery,
    /// An answer to a discovery query.
    DiscoveryResponse,
    /// A request to delegate a task.
    TaskRequest,
    /// A delegation accepted.
    TaskAccept,
    /// A delegation rejected.
    TaskReject,
    /// Task progress.
    TaskProgress,
    /// A task completed.
    TaskComplete,
    /// A task failed.
    TaskFailed,
    /// A task cancelled.
    TaskCancel,
    /// A request.
    Request,
    /// A response.
    Response,
    /// Information, no response expected.
    Inform,
    /// A request for help.
    HelpRequest,
    /// An offer of help.
    HelpOffer,
    /// A proposal.
    Propose,
    /// A vote.
    Vote,
    /// Consensus reached.
    Consensus,
    /// A veto.
    Veto,
    /// A heartbeat.
    Ping,
    /// A heartbeat answer.
    Pong,
    /// An agent leaves.
    Leave,
    /// An error notice.
    Error,
    /// A custom type.
    Custom(String),
}

/// Access control of a shared memory key.
#[derive(Debug, Clone)]
pub struct AccessControl {
    /// Agents that may read.
    pub readers: Vec<String>,
    /// Agents that may write.
    pub writers: Vec<String>,
    /// The key's owner.
    pub owner: String,
    /// Whether every agent may read.
    pub is_public: bool,
}

impl Default for AccessControl {
    fn default() -> (r: AccessControl)
        ensures
            r.readers@.len() == 0,
            r.writers@.len() == 0,
            r.owner@.len() == 0,
            r.is_public,
    {
        AccessControl { readers: Vec::new(), writers: Vec::new(), owner: String::new(), is_public: true }
    }
}

/// Task status.
#[derive(Debug, Clone, Copy, PartialEq, Eq, Structural)]
pub enum TaskStatus {
    /// Waiting for assignment.
    Pending,
    /// Assigned, not started.
    Assigned,
    /// In progress.
    InProgress,
    /// Paused.
    Paused,
    /// Completed.
    Completed,
    /// Failed.
    Failed,
    /// Cancelled.
    Cancelled,
}

/// Proposal status.
#[derive(Debug, Clone, Copy, PartialEq, Eq, Structural)]
pub enum ProposalStatus {
    /// Voting in progress.
    Open,
    /// Consensus reached.
    Decided,
    /// No consensus (tie or no quorum).
    Failed,
    /// Vetoed.
    Vetoed,
}

// ─── Consensus ───────────────────────────────────────────────────────────────

/// A proposal put to a vote. Votes are counted per option, in option order.
#[derive(Debug, Clone)]
pub struct Proposal {
    /// Unique ID.
    pub id: String,
    /// Description.
    pub description: String,
    /// Who proposed it.
    pub proposer: String,
    /// The options.
    pub options: Vec<String>,
    /// Votes per option.
    pub votes: Vec<usize>,
    /// Agents who have voted.
    pub voters: Vec<String>,
    /// Required participation, in percent.
    pub quorum: u8,
    /// Voting deadline, in milliseconds since the Unix epoch.
    pub deadline: i64,
    /// Status.
    pub status: ProposalStatus,
    /// The winning option, once decided.
    pub winner: Option<usize>,
}

/// The sum of vote counts.
pub open spec fn vote_sum(v: Seq<usize>) -> int
    decreases v.len(),
{
    if v.len() == 0 {
        0
    } else {
        vote_sum(v.drop_last()) + v.last()
    }
}

/// Whether no text occurs twice.
pub open spec fn distinct(s: Seq<Seq<char>>) -> bool {
    forall|i: int, j: int| 0 <= i < j < s.len() ==> #[trigger] s[i] != #[trigger] s[j]
}

/// Whether `voters` of `total` agents meet a quorum of `quorum` percent; of
/// no agents, any vote does.
pub open spec fn quorum_met(voters: int, total: int, quorum: int) -> bool {
    if total == 0 {
        voters > 0
    } else {
        voters * 100 >= quorum * total
    }
}

/// The count scan over the first `n` options: the highest count, the first
/// option with it, and whether another option has it too.
pub open spec fn scan(v: Seq<usize>, n: int) -> (int, Option<int>, bool)
    decreases n,
{
    if n <= 0 {
        (0, None, false)
    } else {
        let (max, winner, tie) = scan(v, n - 1);
        let c = v[n - 1] as int;
        if c > max {
            (c, Some(n - 1), false)
        } else if c == max && max > 0 {
            (max, winner, true)
        } else {
            (max, winner, tie)
        }
    }
}

/// The outcome of a tally: the winner, or none for a tie, no votes, or no
/// quorum.
pub open spec fn tally_result(p: Proposal, total: int) -> Option<int> {
    if !quorum_met(p.voters@.len() as int, total, p.quorum as int) {
        None
    } else {
        let (max, winner, tie) = scan(p.votes@, p.votes@.len() as int);
        if tie {
            None
        } else {
            winner
        }
    }
}

/// The status after a tally.
pub open spec fn tally_status(p: Proposal, total: int) -> ProposalStatus {
    if !quorum_met(p.voters@.len() as int, total, p.quorum as int) {
        ProposalStatus::Failed
    } else if scan(p.votes@, p.votes@.len() as int).2 {
        ProposalStatus::Failed
    } else {
        ProposalStatus::Decided
    }
}

/// Whether two proposals agree in every field.
pub open spec fn same_proposal(a: Proposal, b: Proposal) -> bool {
    &&& a.id@ == b.id@
    &&& a.description@ == b.description@
    &&& a.proposer@ == b.proposer@
    &&& string_views(a.options@) == string_views(b.options@)
    &&& a.votes@ == b.votes@
    &&& string_views(a.voters@) == string_views(b.voters@)
    &&& a.quorum == b.quorum
    &&& a.deadline == b.deadline
    &&& a.status == b.status
    &&& a.winner == b.winner
}

/// What the scan finds: the highest count, the first option with it, and a
/// tie exactly when another option has it too.
pub proof fn lemma_scan(v: Seq<usize>, n: int)
    requires
        0 <= n <= v.len(),
    ensures
        ({
            let (max, winner, tie) = scan(v, n);
            &&& forall|j: int| 0 <= j < n ==> v[j] <= max
            &&& max >= 0
            &&& (max == 0 <==> winner is None)
            &&& (winner matches Some(w) ==> 0 <= w < n && v[w] == max)
            &&& (tie <==> (winner matches Some(w) && exists|j: int|
                0 <= j < n && j != w && #[trigger] v[j] == max))
        }),
    decreases n,
{
    if n > 0 {
        lemma_scan(v, n - 1);
        let (max, winner, tie) = scan(v, n - 1);
        let c = v[n - 1] as int;
        if c > max {
            assert forall|j: int| 0 <= j < n && j != n - 1 implies #[trigger] v[j] != c by {}
        } else if c == max && max > 0 {
            assert(v[n - 1] == max);
        } else {
            if tie {
                let w = winner->0;
                let j = choose|j: int| 0 <= j < n - 1 && j != w && #[trigger] v[j] == max;
                assert(v[j] == max);
            }
            if let Some(w) = winner {
                if exists|j: int| 0 <= j < n && j != w && #[trigger] v[j] == max {
                    let j = choose|j: int| 0 <= j < n && j != w && #[trigger] v[j] == max;
                    if j == n - 1 {
                        assert(c == max);
                    } else {
                        assert(v[j] == max);
                    }
                }
            }
        }
    }
}

/// A decided tally picks the option with strictly more votes than every
/// other; a tally without a winner under quorum means a tie at the top or
/// no votes at all.
pub proof fn lemma_tally_picks_strict_maximum(p: Proposal, total: int)
    ensures
        tally_result(p, total) matches Some(w) ==> 0 <= w < p.votes@.len() && forall|j: int|
            0 <= j < p.votes@.len() && j != w ==> #[trigger] p.votes@[j] < p.votes@[w],
        quorum_met(p.voters@.len() as int, total, p.quorum as int) && tally_result(p, total) is None
            ==> (forall|j: int| 0 <= j < p.votes@.len() ==> #[trigger] p.votes@[j] == 0) || exists|
            i: int,
            j: int,
        |
            0 <= i < j < p.votes@.len() && #[trigger] p.votes@[i] == #[trigger] p.votes@[j]
                && forall|k: int| 0 <= k < p.votes@.len() ==> #[trigger] p.votes@[k] <= p.votes@[i],
{
    let v = p.votes@;
    lemma_scan(v, v.len() as int);
    let (max, winner, tie) = scan(v, v.len() as int);
    if quorum_met(p.voters@.len() as int, total, p.quorum as int) {
        if tie {
            let w = winner->0;
            let j = choose|j: int| 0 <= j < v.len() && j != w && #[trigger] v[j] == max;
            if w < j {
                assert(v[w] == v[j]);
            } else {
                assert(v[j] == v[w]);
            }
        } else if let Some(w) = winner {
            assert forall|j: int| 0 <= j < v.len() && j != w implies #[trigger] v[j] < v[w] by {
                if v[j] >= v[w] {
                    assert(v[j] == max);
                }
            }
        }
    }
}

/// Every vote's count is at most the total.
proof fn lemma_vote_le_sum(v: Seq<usize>, i: int)
    requires
        0 <= i < v.len(),
    ensures
        v[i] <= vote_sum(v),
        vote_sum(v) >= 0,
    decreases v.len(),
{
    lemma_vote_sum_nonneg(v.drop_last());
    if i < v.len() - 1 {
        lemma_vote_le_sum(v.drop_last(), i);
    }
}

/// Vote sums are not negative.
proof fn lemma_vote_sum_nonneg(v: Seq<usize>)
    ensures
        vote_sum(v) >= 0,
    decreases v.len(),
{
    if v.len() > 0 {
        lemma_vote_sum_nonneg(v.drop_last());
    }
}

/// Adding one vote to an option adds one to the sum.
proof fn lemma_vote_sum_update(v: Seq<usize>, i: int, x: usize)
    requires
        0 <= i < v.len(),
    ensures
        vote_sum(v.update(i, x)) == vote_sum(v) - v[i] + x,
    decreases v.len(),
{
    if i < v.len() - 1 {
        lemma_vote_sum_update(v.drop_last(), i, x);
        assert(v.update(i, x).drop_last() =~= v.drop_last().update(i, x));
    } else {
        assert(v.update(i, x).drop_last() =~= v.drop_last());
    }
}

/// A list of zeros.
fn zeros(n: usize) -> (r: Vec<usize>)
    ensures
        r@.len() == n,
        forall|i: int| 0 <= i < n ==> #[trigger] r@[i] == 0,
        vote_sum(r@) == 0,
{
    let mut v: Vec<usize> = Vec::new();
    let mut i: usize = 0;
    while i < n
        invariant
            i <= n,
            v@.len() == i,
            forall|j: int| 0 <= j < i ==> #[trigger] v@[j] == 0,
            vote_sum(v@) == 0,
        decreases n - i,
    {
        let ghost o = v@;
        v.push(0);
        assert(v@.drop_last() =~= o);
        i += 1;
    }
    v
}

impl Proposal {
    /// The proposal's invariant: one count per option, each voter once,
    /// and as many votes as voters.
    pub open spec fn wf(&self) -> bool {
        &&& self.votes@.len() == self.options@.len()
        &&& distinct(string_views(self.voters@))
        &&& vote_sum(self.votes@) == self.voters@.len()
    }

    /// An open proposal with a fresh ID, no votes, a quorum of 50% and the
    /// given deadline.
    pub fn new(description: &str, proposer: &str, options: Vec<String>, deadline: i64) -> (r:
        Proposal)
        ensures
            r.wf(),
            r.id@.len() == 36,
            r.description@ == description@,
            r.proposer@ == proposer@,
            r.options@ == options@,
            forall|i: int| 0 <= i < r.votes@.len() ==> #[trigger] r.votes@[i] == 0,
            r.voters@.len() == 0,
            r.quorum == 50,
            r.deadline == deadline,
            r.status == ProposalStatus::Open,
            r.winner is None,
    {
        let votes = zeros(options.len());
        let r = Proposal {
            id: crate::ids::new_uuid_v4(),
            description: owned(description),
            proposer: owned(proposer),
            options,
            votes,
            voters: Vec::new(),
            quorum: 50,
            deadline,
            status: ProposalStatus::Open,
            winner: None,
        };
        assert(string_views(r.voters@) =~= Seq::<Seq<char>>::empty());
        r
    }

    /// The same proposal with another quorum, capped at 100%.
    pub fn with_quorum(self, quorum: u8) -> (r: Proposal)
        ensures
            r.quorum == if quorum < 100 {
                quorum
            } else {
                100
            },
            r.id == self.id && r.description == self.description && r.proposer == self.proposer,
            r.options == self.options && r.votes == self.votes && r.voters == self.voters,
            r.deadline == self.deadline && r.status == self.status && r.winner == self.winner,
    {
        let q = if quorum < 100 {
            quorum
        } else {
            100
        };
        Proposal { quorum: q, ..self }
    }

    /// Casts `agent_id`'s vote for an option at time `now_ms`. Refused, in
    /// this order: when the proposal is not open, after the deadline, when
    /// the agent has voted, for an option that does not exist.
    pub fn vote_at(&mut self, agent_id: &str, option_index: usize, now_ms: i64) -> (r: Result<
        (),
        String,
    >)
        requires
            old(self).wf(),
        ensures
            final(self).wf(),
            old(self).status != ProposalStatus::Open ==> (r matches Err(m) && m@
                == "Proposal is not open for voting"@),
            old(self).status == ProposalStatus::Open && now_ms > old(self).deadline ==> (r matches Err(
                m,
            ) && m@ == "Voting deadline has passed"@),
            old(self).status == ProposalStatus::Open && now_ms <= old(self).deadline && string_views(
                old(self).voters@,
            ).contains(agent_id@) ==> (r matches Err(m) && m@ == "Agent has already voted"@),
            old(self).status == ProposalStatus::Open && now_ms <= old(self).deadline
                && !string_views(old(self).voters@).contains(agent_id@) && option_index
                >= old(self).options@.len() ==> (r matches Err(m) && m@ == "Invalid option index"@),
            r is Ok <==> (old(self).status == ProposalStatus::Open && now_ms <= old(self).deadline
                && !string_views(old(self).voters@).contains(agent_id@) && option_index < old(self).options@.len()),
            r is Err ==> *final(self) == *old(self),
            r is Ok ==> {
                &&& string_views(final(self).voters@) == string_views(old(self).voters@).push(
                    agent_id@,
                )
                &&& final(self).votes@ == old(self).votes@.update(
                    option_index as int,
                    (old(self).votes@[option_index as int] + 1) as usize,
                )
                &&& final(self).id == old(self).id && final(self).options == old(self).options
                &&& final(self).status == old(self).status && final(self).winner == old(self).winner
                &&& final(self).quorum == old(self).quorum && final(self).deadline == old(self).deadline
                &&& final(self).description == old(self).description && final(self).proposer == old(
                    self,
                ).proposer
            },
    {
        if self.status != ProposalStatus::Open {
            return Err(owned("Proposal is not open for voting"));
        }
        if now_ms > self.deadline {
            return Err(owned("Voting deadline has passed"));
        }
        if contains_str(&self.voters, agent_id) {
            return Err(owned("Agent has already voted"));
        }
        if option_index >= self.options.len() {
            return Err(owned("Invalid option index"));
        }
        proof {
            lemma_vote_le_sum(self.votes@, option_index as int);
        }
        let ghost old_voters = string_views(self.voters@);
        self.voters.push(owned(agent_id));
        assert(string_views(self.voters@) =~= old_voters.push(agent_id@));
        let count = self.votes[option_index];
        let nv = self.voters.len();
        assert(count + 1 <= nv);
        proof {
            lemma_vote_sum_update(self.votes@, option_index as int, (count + 1) as usize);
        }
        self.votes.set(option_index, count + 1);
        Ok(())
    }

    /// Casts a vote now; see `vote_at`.
    pub fn vote(&mut self, agent_id: &str, option_index: usize) -> (r: Result<(), String>)
        requires
            old(self).wf(),
        ensures
            final(self).wf(),
            old(self).status != ProposalStatus::Open ==> (r matches Err(m) && m@
                == "Proposal is not open for voting"@),
            r is Err ==> *final(self) == *old(self),
            exists|now: i64|
                crate::clock::in_clock_range(now as int) && (r is Ok <==> #[trigger] vote_allowed(
                    *old(self),
                    agent_id@,
                    option_index,
                    now,
                )) && (r matches Err(m) ==> m@ == vote_refusal(*old(self), agent_id@, option_index, now)),
            r is Ok ==> string_views(final(self).voters@) == string_views(old(self).voters@).push(
                agent_id@,
            ) && final(self).votes@ == old(self).votes@.update(
                option_index as int,
                (old(self).votes@[option_index as int] + 1) as usize,
            ),
            r is Ok ==> final(self).id == old(self).id && final(self).options == old(self).options
                && final(self).status == old(self).status && final(self).winner == old(self).winner
                && final(self).quorum == old(self).quorum && final(self).deadline == old(self).deadline
                && final(self).description == old(self).description && final(self).proposer == old(
                self,
            ).proposer,
    {
        let now = crate::clock::now_millis();
        let r = self.vote_at(agent_id, option_index, now);
        assert(r is Ok <==> vote_allowed(*old(self), agent_id@, option_index, now));
        assert(r matches Err(m) ==> m@ == vote_refusal(*old(self), agent_id@, option_index, now));
        r
    }

    /// Whether the voters make a quorum of `total_agents`.
    pub fn has_quorum(&self, total_agents: usize) -> (r: bool)
        ensures
            r == quorum_met(self.voters@.len() as int, total_agents as int, self.quorum as int),
    {
        if total_agents == 0 {
            self.voters.len() > 0
        } else {
            let n = self.voters.len() as u128;
            let q = self.quorum as u128;
            let t = total_agents as u128;
            assert(n * 100 <= 0x1_0000_0000_0000_0000 * 100) by (nonlinear_arith)
                requires
                    n < 0x1_0000_0000_0000_0000,
            ;
            assert(q * t <= 256 * 0x1_0000_0000_0000_0000) by (nonlinear_arith)
                requires
                    q < 256,
                    t < 0x1_0000_0000_0000_0000,
            ;
            n * 100 >= q * t
        }
    }

    /// Tallies the votes: without a quorum the proposal fails; otherwise the
    /// option with strictly the most votes wins and the proposal is
    /// decided, and a tie at the top fails it.
    pub fn tally(&mut self, total_agents: usize) -> (r: Option<usize>)
        requires
            old(self).wf(),
        ensures
            final(self).wf(),
            r == match tally_result(*old(self), total_agents as int) {
                Some(w) => Some(w as usize),
                None => None::<usize>,
            },
            final(self).status == tally_status(*old(self), total_agents as int),
            final(self).winner == if tally_status(*old(self), total_agents as int)
                == ProposalStatus::Decided {
                r
            } else {
                old(self).winner
            },
            final(self).votes == old(self).votes && final(self).voters == old(self).voters,
            final(self).options == old(self).options && final(self).id == old(self).id,
            final(self).quorum == old(self).quorum && final(self).deadline == old(self).deadline,
            final(self).description == old(self).description && final(self).proposer == old(self).proposer,
    {
        if !self.has_quorum(total_agents) {
            self.status = ProposalStatus::Failed;
            return None;
        }
        let mut max_votes: usize = 0;
        let mut winner: Option<usize> = None;
        let mut is_tie = false;
        let mut i: usize = 0;
        while i < self.votes.len()
            invariant
                i <= self.votes@.len(),
                (max_votes as int, match winner {
                    Some(w) => Some(w as int),
                    None => None::<int>,
                }, is_tie) == scan(self.votes@, i as int),
            decreases self.votes@.len() - i,
        {
            let count = self.votes[i];
            if count > max_votes {
                max_votes = count;
                winner = Some(i);
                is_tie = false;
            } else if count == max_votes && max_votes > 0 {
                is_tie = true;
            }
            i += 1;
        }
        if is_tie {
            self.status = ProposalStatus::Failed;
            None
        } else {
            self.status = ProposalStatus::Decided;
            self.winner = winner;
            winner
        }
    }

    /// Vetoes the proposal.
    pub fn veto(&mut self, agent_id: &str)
        ensures
            final(self).status == ProposalStatus::Vetoed,
            final(self).votes == old(self).votes && final(self).voters == old(self).voters,
            final(self).options == old(self).options && final(self).id == old(self).id,
            final(self).winner == old(self).winner,
    {
        self.status = ProposalStatus::Vetoed;
    }

    /// A copy of the proposal.
    pub fn duplicate(&self) -> (r: Proposal)
        ensures
            same_proposal(r, *self),
    {
        let mut votes: Vec<usize> = Vec::new();
        let mut i: usize = 0;
        while i < self.votes.len()
            invariant
                i <= self.votes@.len(),
                votes@ == self.votes@.take(i as int),
            decreases self.votes@.len() - i,
        {
            votes.push(self.votes[i]);
            assert(self.votes@.take(i + 1) =~= self.votes@.take(i as int).push(self.votes@[i as int]));
            i += 1;
        }
        assert(self.votes@.take(self.votes@.len() as int) =~= self.votes@);
        Proposal {
            id: owned(self.id.as_str()),
            description: owned(self.description.as_str()),
            proposer: owned(self.proposer.as_str()),
            options: copy_strings(&self.options),
            votes,
            voters: copy_strings(&self.voters),
            quorum: self.quorum,
            deadline: self.deadline,
            status: self.status,
            winner: self.winner,
        }
    }
}

/// Events of the consensus manager.
#[derive(Debug, Clone)]
pub enum ConsensusEvent {
    /// A proposal was created.
    ProposalCreated(Proposal),
    /// A vote was cast.
    VoteCast {
        /// Proposal ID.
        proposal_id: String,
        /// Agent ID.
        agent_id: String,
        /// Option index.
        option: usize,
    },
    /// Consensus was reached.
    ConsensusReached {
        /// Proposal ID.
        proposal_id: String,
        /// Winning option index.
        winner: usize,
        /// Winning option text.
        option: String,
    },
    /// No consensus.
    NoConsensus {
        /// Proposal ID.
        proposal_id: String,
    },
    /// A proposal was vetoed.
    Vetoed {
        /// Proposal ID.
        proposal_id: String,
        /// Agent ID.
        agent_id: String,
    },
}

/// The index of the first proposal with the ID, if any.
pub open spec fn proposal_index(ps: Seq<Proposal>, id: Seq<char>) -> Option<int>
    decreases ps.len(),
{
    if ps.len() == 0 {
        None
    } else {
        match proposal_index(ps.drop_last(), id) {
            Some(i) => Some(i),
            None => if ps.last().id@ == id {
                Some(ps.len() - 1)
            } else {
                None
            },
        }
    }
}

/// The first match lies in range and has the ID; without a match no
/// proposal has it.
proof fn lemma_proposal_index(ps: Seq<Proposal>, id: Seq<char>)
    ensures
        proposal_index(ps, id) matches Some(i) ==> 0 <= i < ps.len() && ps[i].id@ == id,
        proposal_index(ps, id) is None ==> forall|j: int| 0 <= j < ps.len() ==> #[trigger] ps[j].id@ != id,
    decreases ps.len(),
{
    if ps.len() > 0 {
        lemma_proposal_index(ps.drop_last(), id);
        if proposal_index(ps, id) is None {
            assert forall|j: int| 0 <= j < ps.len() implies #[trigger] ps[j].id@ != id by {
                if j < ps.len() - 1 {
                    assert(ps.drop_last()[j] == ps[j]);
                }
            }
        }
    }
}

/// The message of a missing proposal.
pub open spec fn proposal_missing(id: Seq<char>) -> Seq<char> {
    "Proposal "@ + id + " not found"@
}

/// Coordinates votes on proposals among a number of agents.
pub struct ConsensusManager {
    proposals: Vec<Proposal>,
    agent_count: usize,
    events: Vec<ConsensusEvent>,
}

impl ConsensusManager {
    /// The proposals, in creation order.
    pub closed spec fn proposals_spec(&self) -> Seq<Proposal> {
        self.proposals@
    }

    /// The number of agents.
    pub closed spec fn agents(&self) -> usize {
        self.agent_count
    }

    /// The events not yet taken out.
    pub closed spec fn outbox(&self) -> Seq<ConsensusEvent> {
        self.events@
    }

    /// Every proposal is well formed.
    pub open spec fn wf(&self) -> bool {
        forall|i: int| 0 <= i < self.proposals_spec().len() ==> #[trigger] self.proposals_spec()[i].wf()
    }

    /// A manager without proposals or agents.
    pub fn new() -> (r: ConsensusManager)
        ensures
            r.wf(),
            r.proposals_spec().len() == 0,
            r.agents() == 0,
            r.outbox().len() == 0,
    {
        ConsensusManager { proposals: Vec::new(), agent_count: 0, events: Vec::new() }
    }

    /// Sets the number of agents.
    pub fn set_agent_count(&mut self, count: usize)
        ensures
            final(self).agents() == count,
            final(self).proposals_spec() == old(self).proposals_spec(),
            final(self).outbox() == old(self).outbox(),
    {
        self.agent_count = count;
    }

    /// Adds a proposal and gives back its ID; a `ProposalCreated` event
    /// goes to the outbox.
    pub fn create_proposal(&mut self, proposal: Proposal) -> (r: String)
        requires
            old(self).wf(),
            proposal.wf(),
        ensures
            final(self).wf(),
            r@ == proposal.id@,
            final(self).proposals_spec() == old(self).proposals_spec().push(proposal),
            final(self).agents() == old(self).agents(),
            final(self).outbox().len() == old(self).outbox().len() + 1,
            final(self).outbox().drop_last() == old(self).outbox(),
            final(self).outbox().last() matches ConsensusEvent::ProposalCreated(p) && same_proposal(
                p,
                proposal,
            ),
    {
        let id = owned(proposal.id.as_str());
        let copy = proposal.duplicate();
        let ghost ev = self.events@;
        let ghost before = self.proposals@;
        self.proposals.push(proposal);
        self.events.push(ConsensusEvent::ProposalCreated(copy));
        assert(self.events@.drop_last() =~= ev);
        assert forall|j: int| 0 <= j < self.proposals@.len() implies #[trigger] self.proposals@[j].wf() by {
            if j < before.len() {
                assert(self.proposals@[j] == before[j]);
                assert(old(self).proposals_spec()[j].wf());
            }
        }
        id
    }

    /// The index of the proposal with the ID.
    fn find(&self, proposal_id: &str) -> (r: Option<usize>)
        ensures
            match r {
                Some(k) => proposal_index(self.proposals@, proposal_id@) == Some(k as int),
                None => proposal_index(self.proposals@, proposal_id@) is None,
            },
    {
        let mut i: usize = 0;
        while i < self.proposals.len()
            invariant
                i <= self.proposals@.len(),
                proposal_index(self.proposals@.take(i as int), proposal_id@) is None,
            decreases self.proposals@.len() - i,
        {
            assert(self.proposals@.take(i + 1).drop_last() =~= self.proposals@.take(i as int));
            if str_eq(self.proposals[i].id.as_str(), proposal_id) {
                proof {
                    lemma_proposal_index_prefix(self.proposals@, i as int + 1, proposal_id@);
                }
                return Some(i);
            }
            i += 1;
        }
        assert(self.proposals@.take(self.proposals@.len() as int) =~= self.proposals@);
        None
    }

    /// Tallies a proposal among the registered agents. A missing proposal
    /// is an error; the outcome goes to the outbox.
    pub fn tally_proposal(&mut self, proposal_id: &str) -> (r: Result<Option<usize>, Error>)
        requires
            old(self).wf(),
        ensures
            final(self).wf(),
            final(self).agents() == old(self).agents(),
            match proposal_index(old(self).proposals_spec(), proposal_id@) {
                None => r matches Err(Error::Agent(m)) && m@ == proposal_missing(proposal_id@)
                    && final(self).proposals_spec() == old(self).proposals_spec()
                    && final(self).outbox() == old(self).outbox(),
                Some(i) => {
                    let p = old(self).proposals_spec()[i];
                    &&& r == Ok::<Option<usize>, Error>(
                        match tally_result(p, old(self).agents() as int) {
                            Some(w) => Some(w as usize),
                            None => None::<usize>,
                        },
                    )
                    &&& final(self).proposals_spec().len() == old(self).proposals_spec().len()
                    &&& final(self).proposals_spec()[i].status == tally_status(p, old(self).agents() as int)
                    &&& final(self).proposals_spec()[i].votes == p.votes
                    &&& final(self).proposals_spec()[i].voters == p.voters
                    &&& final(self).proposals_spec()[i].options == p.options
                    &&& final(self).proposals_spec()[i].id == p.id
                    &&& final(self).proposals_spec()[i].quorum == p.quorum
                    &&& final(self).proposals_spec()[i].deadline == p.deadline
                    &&& final(self).proposals_spec()[i].description == p.description
                    &&& final(self).proposals_spec()[i].proposer == p.proposer
                    &&& forall|j: int|
                        0 <= j < old(self).proposals_spec().len() && j != i ==> final(self).proposals_spec()[j] == #[trigger] old(self).proposals_spec()[j]
                    &&& final(self).outbox().len() == old(self).outbox().len() + 1
                    &&& final(self).outbox().drop_last() == old(self).outbox()
                    &&& match tally_result(p, old(self).agents() as int) {
                        Some(w) => final(self).outbox().last() matches ConsensusEvent::ConsensusReached {
                            proposal_id: pid,
                            winner,
                            option,
                        } && pid@ == proposal_id@ && winner == w && option@ == p.options@[w]@,
                        None => final(self).outbox().last() matches ConsensusEvent::NoConsensus {
                            proposal_id: pid,
                        } && pid@ == proposal_id@,
                    }
                },
            },
    {
        proof {
            lemma_proposal_index(self.proposals@, proposal_id@);
        }
        match self.find(proposal_id) {
            None => {
                let mut m = chars_of("Proposal ");
                extend_str(&mut m, proposal_id);
                extend_str(&mut m, " not found");
                Err(Error::Agent(string_from_chars(&m)))
            },
            Some(i) => {
                let mut p = self.proposals.remove(i);
                assert(old(self).proposals_spec()[i as int].wf());
                let ghost p0 = p;
                let _nvotes = p.votes.len();
                let winner = p.tally(self.agent_count);
                proof {
                    lemma_tally_picks_strict_maximum(p0, self.agent_count as int);
                }
                let event = match winner {
                    Some(w) => {
                        assert(w < p.options@.len());
                        ConsensusEvent::ConsensusReached {
                            proposal_id: owned(proposal_id),
                            winner: w,
                            option: owned(p.options[w].as_str()),
                        }
                    },
                    None => ConsensusEvent::NoConsensus { proposal_id: owned(proposal_id) },
                };
                let ghost before = self.proposals@;
                self.proposals.insert(i, p);
                let ghost ev = self.events@;
                self.events.push(event);
                assert(self.events@.drop_last() =~= ev);
                proof {
                    assert(self.proposals@ =~= old(self).proposals@.update(i as int, p));
                    assert forall|j: int| 0 <= j < self.proposals@.len() implies #[trigger] self.proposals@[j].wf() by {
                        if j != i {
                            assert(self.proposals@[j] == old(self).proposals@[j]);
                            assert(old(self).proposals_spec()[j].wf());
                        }
                    }
                }
                Ok(winner)
            },
        }
    }

    /// Casts a vote on a proposal at time `now_ms`; a `VoteCast` event goes
    /// to the outbox, and once every registered agent has voted the
    /// proposal is tallied.
    pub fn vote_at(&mut self, proposal_id: &str, agent_id: &str, option_index: usize, now_ms: i64) -> (r:
        Result<(), Error>)
        requires
            old(self).wf(),
        ensures
            final(self).wf(),
            final(self).agents() == old(self).agents(),
            proposal_index(old(self).proposals_spec(), proposal_id@) is None ==> (r matches Err(
                Error::Agent(m),
            ) && m@ == proposal_missing(proposal_id@) && final(self).proposals_spec() == old(self).proposals_spec()),
            r is Ok ==> proposal_index(old(self).proposals_spec(), proposal_id@) is Some,
            proposal_index(old(self).proposals_spec(), proposal_id@) matches Some(i) ==> {
                let p = old(self).proposals_spec()[i];
                &&& (r is Ok <==> vote_allowed(p, agent_id@, option_index, now_ms))
                &&& (!vote_allowed(p, agent_id@, option_index, now_ms) ==> (r matches Err(
                    Error::Agent(m),
                ) && m@ == vote_refusal(p, agent_id@, option_index, now_ms)
                    && final(self).proposals_spec() == old(self).proposals_spec()))
                &&& (vote_allowed(p, agent_id@, option_index, now_ms) ==> string_views(
                    final(self).proposals_spec()[i].voters@,
                ) == string_views(p.voters@).push(agent_id@) && final(self).proposals_spec()[i].votes@
                    == p.votes@.update(option_index as int, (p.votes@[option_index as int] + 1) as usize))
            },
            final(self).proposals_spec().len() == old(self).proposals_spec().len(),
            vote_outcome(*old(self), *final(self), proposal_id@, agent_id@, option_index, now_ms, r),
    {
        proof {
            lemma_proposal_index(self.proposals@, proposal_id@);
        }
        match self.find(proposal_id) {
            None => {
                let mut m = chars_of("Proposal ");
                extend_str(&mut m, proposal_id);
                extend_str(&mut m, " not found");
                Err(Error::Agent(string_from_chars(&m)))
            },
            Some(i) => {
                let mut p = self.proposals.remove(i);
                assert(old(self).proposals_spec()[i as int].wf());
                let ghost p0 = p;
                let res = p.vote_at(agent_id, option_index, now_ms);
                let voted = p.voters.len();
                self.proposals.insert(i, p);
                proof {
                    assert(self.proposals@ =~= old(self).proposals@.update(i as int, p));
                    lemma_proposal_index_update(old(self).proposals@, i as int, p, proposal_id@);
                }
                proof {
                    assert forall|j: int| 0 <= j < self.proposals@.len() implies #[trigger] self.proposals@[j].wf() by {
                        if j != i {
                            assert(self.proposals@[j] == old(self).proposals@[j]);
                            assert(old(self).proposals_spec()[j].wf());
                        }
                    }
                }
                let ghost n = old(self).events@.len() as int;
                match res {
                    Err(m) => {
                        assert(self.proposals@ =~= old(self).proposals@);
                        Err(Error::Agent(m))
                    },
                    Ok(()) => {
                        assert(string_views(p.voters@).len() == p.voters@.len());
                        assert(string_views(p0.voters@).len() == p0.voters@.len());
                        assert(voted == p0.voters@.len() + 1);
                        let ghost mid = self.proposals@;
                        self.events.push(
                            ConsensusEvent::VoteCast {
                                proposal_id: owned(proposal_id),
                                agent_id: owned(agent_id),
                                option: option_index,
                            },
                        );
                        assert(self.events@.take(n) =~= old(self).events@);
                        if voted >= self.agent_count {
                            let ghost ev = self.events@;
                            let t = self.tally_proposal(proposal_id);
                            proof {
                                let q = self.proposals@[i as int];
                                assert(q.votes == mid[i as int].votes && q.voters == mid[i as int].voters
                                    && q.quorum == mid[i as int].quorum && q.deadline == mid[i as int].deadline
                                    && q.description == mid[i as int].description && q.proposer
                                    == mid[i as int].proposer);
                                assert(tally_status(q, self.agent_count as int) == tally_status(
                                    mid[i as int],
                                    self.agent_count as int,
                                ));
                                assert(self.events@.drop_last() == ev);
                                assert(self.events@.take(n) =~= old(self).events@);
                                assert(self.events@[n] == ev[n]);
                                assert forall|j: int|
                                    0 <= j < old(self).proposals@.len() && j != i implies #[trigger] self.proposals@[j]
                                    == old(self).proposals@[j] by {
                                    assert(self.proposals@[j] == mid[j]);
                                }
                            }
                            match t {
                                Ok(_) => Ok(()),
                                Err(e) => Err(e),
                            }
                        } else {
                            Ok(())
                        }
                    },
                }
            },
        }
    }

    /// Casts a vote now; see `vote_at`.
    pub fn vote(&mut self, proposal_id: &str, agent_id: &str, option_index: usize) -> (r: Result<
        (),
        Error,
    >)
        requires
            old(self).wf(),
        ensures
            final(self).wf(),
            proposal_index(old(self).proposals_spec(), proposal_id@) is None ==> (r matches Err(
                Error::Agent(m),
            ) && m@ == proposal_missing(proposal_id@)),
            proposal_index(old(self).proposals_spec(), proposal_id@) matches Some(i) ==> exists|now: i64|
                crate::clock::in_clock_range(now as int) && (r is Ok <==> #[trigger] vote_allowed(
                    old(self).proposals_spec()[i],
                    agent_id@,
                    option_index,
                    now,
                )),
            exists|now: i64|
                crate::clock::in_clock_range(now as int) && #[trigger] vote_outcome(
                    *old(self),
                    *final(self),
                    proposal_id@,
                    agent_id@,
                    option_index,
                    now,
                    r,
                ),
    {
        let now = crate::clock::now_millis();
        let r = self.vote_at(proposal_id, agent_id, option_index, now);
        assert(vote_outcome(*old(self), *self, proposal_id@, agent_id@, option_index, now, r));
        r
    }

    /// The proposal with the ID.
    pub fn get_proposal(&self, proposal_id: &str) -> (r: Option<&Proposal>)
        ensures
            match proposal_index(self.proposals_spec(), proposal_id@) {
                Some(i) => r matches Some(p) && *p == self.proposals_spec()[i],
                None => r is None,
            },
    {
        proof {
            lemma_proposal_index(self.proposals@, proposal_id@);
        }
        match self.find(proposal_id) {
            Some(i) => Some(&self.proposals[i]),
            None => None,
        }
    }

    /// The proposals with the status, or all.
    pub fn list_proposals(&self, status_filter: Option<ProposalStatus>) -> (r: Vec<&Proposal>)
        ensures
            r@.map_values(|x: &Proposal| *x) == self.proposals_spec().filter(
                |x: Proposal|
                    match status_filter {
                        Some(s) => x.status == s,
                        None => true,
                    },
            ),
            r@.len() <= self.proposals_spec().len(),
            forall|j: int| 0 <= j < r@.len() ==> self.proposals_spec().contains(*#[trigger] r@[j]),
            forall|j: int|
                0 <= j < r@.len() ==> (status_filter matches Some(s) ==> #[trigger] r@[j].status == s),
            status_filter is None ==> r@.len() == self.proposals_spec().len(),
    {
        let mut out: Vec<&Proposal> = Vec::new();
        let ghost xs = self.proposals@;
        let mut i: usize = 0;
        while i < self.proposals.len()
            invariant
                i <= self.proposals@.len(),
                xs == self.proposals@,
                xs == self.proposals_spec(),
                out@.map_values(|x: &Proposal| *x) == xs.take(i as int).filter(
                    |x: Proposal|
                        match status_filter {
                            Some(s) => x.status == s,
                            None => true,
                        },
                ),
                out@.len() <= i,
                status_filter is None ==> out@.len() == i,
                forall|j: int| 0 <= j < out@.len() ==> self.proposals@.contains(*#[trigger] out@[j]),
                forall|j: int|
                    0 <= j < out@.len() ==> (status_filter matches Some(s) ==> #[trigger] out@[j].status
                        == s),
            decreases self.proposals@.len() - i,
        {
            let p = &self.proposals[i];
            let keep = match status_filter {
                Some(s) => p.status == s,
                None => true,
            };
            let ghost o = out@;
            assert(xs.take(i + 1) =~= xs.take(i as int).push(xs[i as int]));
            if keep {
                out.push(p);
                assert(self.proposals@.contains(self.proposals@[i as int]));
                assert(out@.map_values(|x: &Proposal| *x) =~= o.map_values(|x: &Proposal| *x).push(xs[i as int]));
            }
            proof {
                xs.take(i as int).lemma_filter_push(
                    xs[i as int],
                    |x: Proposal|
                        match status_filter {
                            Some(s) => x.status == s,
                            None => true,
                        },
                );
            }
            i += 1;
        }
        assert(xs.take(xs.len() as int) =~= xs);
        out
    }

    /// Takes the events out of the outbox.
    pub fn take_events(&mut self) -> (r: Vec<ConsensusEvent>)
        ensures
            r@ == old(self).outbox(),
            final(self).outbox().len() == 0,
            final(self).proposals_spec() == old(self).proposals_spec(),
            final(self).agents() == old(self).agents(),
    {
        let mut out: Vec<ConsensusEvent> = Vec::new();
        std::mem::swap(&mut out, &mut self.events);
        out
    }
}

/// A match in a prefix is the first match of the whole.
/// Replacing a proposal by one with the same ID moves no proposal's index.
proof fn lemma_proposal_index_update(ps: Seq<Proposal>, i: int, q: Proposal, id: Seq<char>)
    requires
        0 <= i < ps.len(),
        q.id@ == ps[i].id@,
    ensures
        proposal_index(ps.update(i, q), id) == proposal_index(ps, id),
    decreases ps.len(),
{
    if i < ps.len() - 1 {
        assert(ps.update(i, q).drop_last() =~= ps.drop_last().update(i, q));
        lemma_proposal_index_update(ps.drop_last(), i, q, id);
    } else {
        assert(ps.update(i, q).drop_last() =~= ps.drop_last());
    }
}

/// What a vote by `agent` for `option` on the proposal `pid` at `now` does,
/// with result `r`: a missing proposal and a refused vote change nothing;
/// an accepted vote adds the agent to the voters and one to the option's
/// count, sends a `VoteCast` event, and, once the voters reach the number
/// of agents, tallies the proposal (sending its outcome too). No other
/// proposal changes.
pub open spec fn vote_outcome(
    before: ConsensusManager,
    after: ConsensusManager,
    pid: Seq<char>,
    agent: Seq<char>,
    option: usize,
    now: i64,
    r: Result<(), Error>,
) -> bool {
    &&& after.agents() == before.agents()
    &&& after.proposals_spec().len() == before.proposals_spec().len()
    &&& match proposal_index(before.proposals_spec(), pid) {
        None => r matches Err(Error::Agent(m)) && m@ == proposal_missing(pid) && after.proposals_spec()
            == before.proposals_spec() && after.outbox() == before.outbox(),
        Some(i) => {
            let p = before.proposals_spec()[i];
            let q = after.proposals_spec()[i];
            let n = before.outbox().len() as int;
            &&& forall|j: int|
                0 <= j < before.proposals_spec().len() && j != i ==> #[trigger] after.proposals_spec()[j]
                    == before.proposals_spec()[j]
            &&& if !vote_allowed(p, agent, option, now) {
                &&& r matches Err(Error::Agent(m)) && m@ == vote_refusal(p, agent, option, now)
                &&& after.proposals_spec() == before.proposals_spec()
                &&& after.outbox() == before.outbox()
            } else {
                &&& r is Ok
                &&& string_views(q.voters@) == string_views(p.voters@).push(agent)
                &&& q.votes@ == p.votes@.update(option as int, (p.votes@[option as int] + 1) as usize)
                &&& q.id == p.id && q.options == p.options && q.quorum == p.quorum && q.deadline == p.deadline
                &&& q.description == p.description && q.proposer == p.proposer
                &&& after.outbox().take(n) == before.outbox()
                &&& after.outbox()[n] matches ConsensusEvent::VoteCast { proposal_id: a, agent_id: b, option: o }
                    && a@ == pid && b@ == agent && o == option
                &&& if p.voters@.len() + 1 >= before.agents() {
                    q.status == tally_status(q, before.agents() as int) && after.outbox().len() == n + 2
                } else {
                    q.status == p.status && q.winner == p.winner && after.outbox().len() == n + 1
                }
            }
        },
    }
}

/// Whether a vote by `agent` for `option` at `now` is accepted.
pub open spec fn vote_allowed(p: Proposal, agent: Seq<char>, option: usize, now: i64) -> bool {
    &&& p.status == ProposalStatus::Open
    &&& now <= p.deadline
    &&& !string_views(p.voters@).contains(agent)
    &&& option < p.options@.len()
}

/// Why a vote is refused, checked in that order: the proposal is closed,
/// the deadline passed, the agent voted already, or the option is invalid.
pub open spec fn vote_refusal(p: Proposal, agent: Seq<char>, option: usize, now: i64) -> Seq<char> {
    if p.status != ProposalStatus::Open {
        "Proposal is not open for voting"@
    } else if now > p.deadline {
        "Voting deadline has passed"@
    } else if string_views(p.voters@).contains(agent) {
        "Agent has already voted"@
    } else {
        "Invalid option index"@
    }
}

proof fn lemma_proposal_index_prefix(ps: Seq<Proposal>, n: int, id: Seq<char>)
    requires
        0 < n <= ps.len(),
        proposal_index(ps.take(n - 1), id) is None,
        ps[n - 1].id@ == id,
    ensures
        proposal_index(ps, id) == Some(n - 1),
    decreases ps.len(),
{
    assert(ps.take(n).drop_last() =~= ps.take(n - 1));
    if n < ps.len() {
        assert(ps.drop_last().take(n - 1) =~= ps.take(n - 1));
        assert(ps.drop_last().take(n) =~= ps.take(n));
        lemma_proposal_index_prefix(ps.drop_last(), n, id);
    } else {
        assert(ps.take(n) =~= ps);
    }
}

impl Default for ConsensusManager {
    fn default() -> (r: ConsensusManager)
        ensures
            r.wf(),
            r.proposals_spec().len() == 0,
    {
        ConsensusManager::new()
    }
}

// ─── Shared memory ───────────────────────────────────────────────────────────

/// A value in shared memory.
#[derive(Debug)]
pub struct SharedValue {
    /// The value.
    pub value: serde_json::Value,
    /// The agent that last changed it.
    pub modified_by: String,
    /// When it was last changed, in milliseconds since the Unix epoch.
    pub modified_at: i64,
    /// Version number, for optimistic locking.
    pub version: u64,
    /// Tags.
    pub tags: Vec<String>,
}

/// The view of a shared value.
pub struct SharedView {
    /// The value.
    pub value: serde_json::Value,
    /// The agent that last changed it.
    pub modified_by: Seq<char>,
    /// When it was last changed.
    pub modified_at: i64,
    /// Version number.
    pub version: u64,
    /// Tags.
    pub tags: Seq<Seq<char>>,
}

/// The views of stored entries: each key and its value's view.
pub open spec fn entry_views(s: Seq<(String, SharedValue)>) -> Seq<(Seq<char>, SharedView)> {
    s.map_values(|e: (String, SharedValue)| (e.0@, shared_view(e.1)))
}

/// The view of a shared value.
pub open spec fn shared_view(v: SharedValue) -> SharedView {
    SharedView {
        value: v.value,
        modified_by: v.modified_by@,
        modified_at: v.modified_at,
        version: v.version,
        tags: string_views(v.tags@),
    }
}

impl SharedValue {
    /// A copy of the value.
    pub fn duplicate(&self) -> (r: SharedValue)
        ensures
            shared_view(r) == shared_view(*self),
    {
        SharedValue {
            value: crate::json::clone_value(&self.value),
            modified_by: owned(self.modified_by.as_str()),
            modified_at: self.modified_at,
            version: self.version,
            tags: copy_strings(&self.tags),
        }
    }
}

/// Events of shared memory.
#[derive(Debug)]
pub enum SharedMemoryEvent {
    /// A value was created.
    Created {
        /// Key.
        key: String,
        /// Value.
        value: SharedValue,
    },
    /// A value was updated.
    Updated {
        /// Key.
        key: String,
        /// Old value.
        old: SharedValue,
        /// New value.
        new: SharedValue,
    },
    /// A value was deleted.
    Deleted {
        /// Key.
        key: String,
        /// Deleted value.
        value: SharedValue,
    },
}

/// Kinds of recorded operations.
#[derive(Debug, Clone, Copy, PartialEq, Eq, Structural)]
pub enum SharedMemoryOpType {
    /// A value was created.
    Create,
    /// A value was updated.
    Update,
    /// A value was deleted.
    Delete,
}

/// An operation in the shared memory's history.
#[derive(Debug)]
pub struct SharedMemoryOperation {
    /// Kind.
    pub op_type: SharedMemoryOpType,
    /// Key.
    pub key: String,
    /// The value written, for creations and updates.
    pub value: Option<SharedValue>,
    /// The agent.
    pub agent: String,
    /// When, in milliseconds since the Unix epoch.
    pub timestamp: i64,
}

/// The stored value under `key`: the first entry with it.
pub open spec fn stored_value(store: Seq<(String, SharedValue)>, key: Seq<char>) -> Option<SharedValue>
    decreases store.len(),
{
    if store.len() == 0 {
        None
    } else {
        match stored_value(store.drop_last(), key) {
            Some(v) => Some(v),
            None => if store.last().0@ == key {
                Some(store.last().1)
            } else {
                None
            },
        }
    }
}

/// The access control of `key`: the first entry with it.
pub open spec fn acl_of(acl: Seq<(String, AccessControl)>, key: Seq<char>) -> Option<AccessControl>
    decreases acl.len(),
{
    if acl.len() == 0 {
        None
    } else {
        match acl_of(acl.drop_last(), key) {
            Some(a) => Some(a),
            None => if acl.last().0@ == key {
                Some(acl.last().1)
            } else {
                None
            },
        }
    }
}

/// Whether an agent may read a key under its access control: public keys,
/// owners, readers and writers may; keys without access control are open.
pub open spec fn may_read(acl: Option<AccessControl>, agent: Seq<char>) -> bool {
    match acl {
        Some(a) => a.is_public || a.owner@ == agent || string_views(a.readers@).contains(agent)
            || string_views(a.writers@).contains(agent),
        None => true,
    }
}

/// Whether an agent may write a key under its access control: owners and
/// writers may; keys without access control are open.
pub open spec fn may_write(acl: Option<AccessControl>, agent: Seq<char>) -> bool {
    match acl {
        Some(a) => a.owner@ == agent || string_views(a.writers@).contains(agent),
        None => true,
    }
}

/// The message of a refused write.
pub open spec fn no_write_access(agent: Seq<char>, key: Seq<char>) -> Seq<char> {
    "Agent "@ + agent + " does not have write access to key "@ + key
}

/// What deleting `key` by `agent` does, with result `r`: refused (and
/// nothing changes) unless the agent may write the key; else the value
/// goes, no other value and no access control changes, and a deletion is
/// recorded when there was a value.
pub open spec fn delete_outcome(before: SharedMemory, after: SharedMemory, key: Seq<char>, agent: Seq<char>, r: Result<(), Error>) -> bool {
    if !may_write(before.access(key), agent) {
        &&& r matches Err(Error::Agent(m)) && m@ == no_write_access(agent, key)
        &&& after == before
    } else {
        &&& r is Ok
        &&& after.value_at(key) is None
        &&& forall|k: Seq<char>| k != key ==> #[trigger] after.value_at(k) == before.value_at(k)
        &&& forall|k: Seq<char>| #[trigger] after.access(k) == before.access(k)
        &&& after.outbox().len() == before.outbox().len() + if before.value_at(key) is Some {
            1int
        } else {
            0int
        }
    }
}

/// What a write of `value` under `key` by `agent` with `tags` at `now` does
/// to shared memory, with result `r`: refused (and nothing changes) unless
/// the agent may write the key; else the value is stored with the next
/// version (1 for a new key), a new key is owned by the agent, public, with
/// no readers or writers, an existing key keeps its access control, and no
/// other key changes.
pub open spec fn write_outcome(
    before: SharedMemory,
    after: SharedMemory,
    key: Seq<char>,
    value: serde_json::Value,
    agent: Seq<char>,
    tags: Seq<Seq<char>>,
    now: i64,
    r: Result<u64, Error>,
) -> bool {
    if !may_write(before.access(key), agent) {
        &&& r matches Err(Error::Agent(m)) && m@ == no_write_access(agent, key)
        &&& after == before
    } else {
        let version: u64 = match before.value_at(key) {
            Some(v) => (v.version + 1) as u64,
            None => 1,
        };
        &&& r == Ok::<u64, Error>(version)
        &&& after.value_at(key) matches Some(nv) && shared_view(nv) == (SharedView {
            value: value,
            modified_by: agent,
            modified_at: now,
            version: version,
            tags: tags,
        })
        &&& forall|k: Seq<char>| k != key ==> #[trigger] after.value_at(k) == before.value_at(k)
        &&& before.value_at(key) is None ==> (after.access(key) matches Some(a) && a.owner@ == agent
            && a.is_public && a.readers@.len() == 0 && a.writers@.len() == 0)
        &&& before.value_at(key) is Some ==> after.access(key) == before.access(key)
    }
}

/// Whether no stored value holds a tag twice.
pub open spec fn tags_unique(s: Seq<(String, SharedValue)>) -> bool {
    forall|i: int| 0 <= i < s.len() ==> string_views((#[trigger] s[i]).1.tags@).no_duplicates()
}

/// The index of the first entry of a keyed list with the key.
pub open spec fn key_index<T>(s: Seq<(String, T)>, key: Seq<char>) -> Option<int>
    decreases s.len(),
{
    if s.len() == 0 {
        None
    } else {
        match key_index(s.drop_last(), key) {
            Some(i) => Some(i),
            None => if s.last().0@ == key {
                Some(s.len() - 1)
            } else {
                None
            },
        }
    }
}

/// The first index with the key is in range and has it; without one, no
/// entry has it.
pub(crate) proof fn lemma_key_index<T>(s: Seq<(String, T)>, key: Seq<char>)
    ensures
        key_index(s, key) matches Some(i) ==> 0 <= i < s.len() && s[i].0@ == key && forall|j: int|
            0 <= j < i ==> #[trigger] s[j].0@ != key,
        key_index(s, key) is None ==> forall|j: int| 0 <= j < s.len() ==> #[trigger] s[j].0@ != key,
    decreases s.len(),
{
    if s.len() > 0 {
        let pre = s.drop_last();
        lemma_key_index(pre, key);
        match key_index(pre, key) {
            Some(i) => {
                assert forall|j: int| 0 <= j < i implies #[trigger] s[j].0@ != key by {
                    assert(pre[j] == s[j]);
                }
                assert(pre[i] == s[i]);
            },
            None => {
                assert forall|j: int| 0 <= j < s.len() - 1 implies #[trigger] s[j].0@ != key by {
                    assert(pre[j] == s[j]);
                }
            },
        }
    }
}

/// The index of the first entry with the key.
pub(crate) fn find_key<T>(s: &Vec<(String, T)>, key: &str) -> (r: Option<usize>)
    ensures
        match r {
            Some(k) => key_index(s@, key@) == Some(k as int),
            None => key_index(s@, key@) is None,
        },
{
    let mut i: usize = 0;
    while i < s.len()
        invariant
            i <= s@.len(),
            forall|j: int| 0 <= j < i ==> #[trigger] s@[j].0@ != key@,
        decreases s@.len() - i,
    {
        if str_eq(s[i].0.as_str(), key) {
            proof {
                lemma_key_index_first(s@, i as int, key@);
            }
            return Some(i);
        }
        i += 1;
    }
    proof {
        lemma_key_index_none(s@, key@);
    }
    None
}

/// The first entry with the key is the one found first.
pub(crate) proof fn lemma_key_index_first<T>(s: Seq<(String, T)>, i: int, key: Seq<char>)
    requires
        0 <= i < s.len(),
        s[i].0@ == key,
        forall|j: int| 0 <= j < i ==> #[trigger] s[j].0@ != key,
    ensures
        key_index(s, key) == Some(i),
    decreases s.len(),
{
    if i < s.len() - 1 {
        lemma_key_index_first(s.drop_last(), i, key);
    } else {
        lemma_key_index_none(s.drop_last(), key);
    }
}

/// Without an entry with the key, there is no index.
pub(crate) proof fn lemma_key_index_none<T>(s: Seq<(String, T)>, key: Seq<char>)
    requires
        forall|j: int| 0 <= j < s.len() ==> #[trigger] s[j].0@ != key,
    ensures
        key_index(s, key) is None,
    decreases s.len(),
{
    if s.len() > 0 {
        assert forall|j: int| 0 <= j < s.len() - 1 implies #[trigger] s.drop_last()[j].0@ != key by {
            assert(s.drop_last()[j] == s[j]);
        }
        lemma_key_index_none(s.drop_last(), key);
    }
}

/// The stored value is the one at the first index with the key.
proof fn lemma_stored_value(store: Seq<(String, SharedValue)>, key: Seq<char>)
    ensures
        stored_value(store, key) == match key_index(store, key) {
            Some(i) => Some(store[i].1),
            None => None::<SharedValue>,
        },
    decreases store.len(),
{
    if store.len() > 0 {
        lemma_stored_value(store.drop_last(), key);
        lemma_key_index(store.drop_last(), key);
    }
}

/// The access control is the one at the first index with the key.
proof fn lemma_acl_of(acl: Seq<(String, AccessControl)>, key: Seq<char>)
    ensures
        acl_of(acl, key) == match key_index(acl, key) {
            Some(i) => Some(acl[i].1),
            None => None::<AccessControl>,
        },
    decreases acl.len(),
{
    if acl.len() > 0 {
        lemma_acl_of(acl.drop_last(), key);
        lemma_key_index(acl.drop_last(), key);
    }
}

/// Replacing the entry at the first index of a key changes that key only.
/// Pushing an entry keeps the first index of every key already present,
/// and gives a new key the last index.
proof fn lemma_key_index_push<T>(s: Seq<(String, T)>, e: (String, T))
    ensures
        forall|k: Seq<char>|
            #[trigger] key_index(s.push(e), k) == match key_index(s, k) {
                Some(i) => Some(i),
                None => if k == e.0@ {
                    Some(s.len() as int)
                } else {
                    None
                },
            },
{
    assert(s.push(e).drop_last() =~= s);
}

proof fn lemma_key_index_update<T>(s: Seq<(String, T)>, i: int, e: (String, T), key: Seq<char>)
    requires
        key_index(s, e.0@) == Some(i),
    ensures
        key_index(s.update(i, e), key) == key_index(s, key),
    decreases s.len(),
{
    lemma_key_index(s, e.0@);
    if i < s.len() - 1 {
        assert(s.update(i, e).drop_last() =~= s.drop_last().update(i, e));
        lemma_key_index(s.drop_last(), e.0@);
        lemma_key_index_first(s.drop_last(), i, e.0@);
        lemma_key_index_update(s.drop_last(), i, e, key);
    } else {
        assert(s.update(i, e).drop_last() =~= s.drop_last());
    }
}

/// Shared memory for agents: values by key, with versions, access control
/// and a bounded history.
pub struct SharedMemory {
    store: Vec<(String, SharedValue)>,
    acl: Vec<(String, AccessControl)>,
    history: Vec<SharedMemoryOperation>,
    max_history: usize,
    events: Vec<SharedMemoryEvent>,
}

impl SharedMemory {
    /// The memory's invariant: no key is stored twice, no key has two
    /// access controls, and no stored value holds a tag twice.
    pub closed spec fn wf(&self) -> bool {
        unique_keys_of(self.store@) && unique_keys_of(self.acl@) && tags_unique(self.store@)
    }

    /// The stored value under `key`.
    pub closed spec fn value_at(&self, key: Seq<char>) -> Option<SharedValue> {
        stored_value(self.store@, key)
    }

    /// The access control of `key`.
    pub closed spec fn access(&self, key: Seq<char>) -> Option<AccessControl> {
        acl_of(self.acl@, key)
    }

    /// The keys, in the order they were first stored.
    pub closed spec fn keys(&self) -> Seq<Seq<char>> {
        self.store@.map_values(|e: (String, SharedValue)| e.0@)
    }

    /// The stored entries, as keys and value views, in the order of the store.
    pub closed spec fn entries(&self) -> Seq<(Seq<char>, SharedView)> {
        entry_views(self.store@)
    }

    /// The recorded operations, oldest first.
    pub closed spec fn ops(&self) -> Seq<SharedMemoryOperation> {
        self.history@
    }

    /// The largest history kept.
    pub closed spec fn history_limit(&self) -> usize {
        self.max_history
    }

    /// The events not yet taken out.
    pub closed spec fn outbox(&self) -> Seq<SharedMemoryEvent> {
        self.events@
    }

    /// A shared memory keeping the last 1000 operations.
    pub fn new() -> (r: SharedMemory)
        ensures
            r.wf(),
            forall|k: Seq<char>| #[trigger] r.value_at(k) is None && r.access(k) is None,
            r.history_limit() == 1000,
            r.ops().len() == 0,
            r.outbox().len() == 0,
    {
        Self::with_history_size(1000)
    }

    /// A shared memory keeping the last `max_history` operations.
    pub fn with_history_size(max_history: usize) -> (r: SharedMemory)
        ensures
            r.wf(),
            forall|k: Seq<char>| #[trigger] r.value_at(k) is None && r.access(k) is None,
            r.history_limit() == max_history,
            r.ops().len() == 0,
            r.outbox().len() == 0,
    {
        SharedMemory {
            store: Vec::new(),
            acl: Vec::new(),
            history: Vec::new(),
            max_history,
            events: Vec::new(),
        }
    }

    /// Whether an agent may read a key.
    fn can_read(&self, key: &str, agent_id: &str) -> (r: bool)
        ensures
            r == may_read(self.access(key@), agent_id@),
    {
        proof {
            lemma_acl_of(self.acl@, key@);
            lemma_key_index(self.acl@, key@);
        }
        match find_key(&self.acl, key) {
            Some(i) => {
                let a = &self.acl[i].1;
                a.is_public || str_eq(a.owner.as_str(), agent_id) || contains_str(&a.readers, agent_id)
                    || contains_str(&a.writers, agent_id)
            },
            None => true,
        }
    }

    /// Whether an agent may write a key.
    fn can_write(&self, key: &str, agent_id: &str) -> (r: bool)
        ensures
            r == may_write(self.access(key@), agent_id@),
    {
        proof {
            lemma_acl_of(self.acl@, key@);
            lemma_key_index(self.acl@, key@);
        }
        match find_key(&self.acl, key) {
            Some(i) => {
                let a = &self.acl[i].1;
                str_eq(a.owner.as_str(), agent_id) || contains_str(&a.writers, agent_id)
            },
            None => true,
        }
    }

    /// The value under `key`, when the agent may read it.
    pub fn get(&self, key: &str, agent_id: &str) -> (r: Option<SharedValue>)
        ensures
            !may_read(self.access(key@), agent_id@) ==> r is None,
            may_read(self.access(key@), agent_id@) ==> match self.value_at(key@) {
                Some(v) => r matches Some(x) && shared_view(x) == shared_view(v),
                None => r is None,
            },
    {
        if !self.can_read(key, agent_id) {
            return None;
        }
        proof {
            lemma_stored_value(self.store@, key@);
            lemma_key_index(self.store@, key@);
        }
        match find_key(&self.store, key) {
            Some(i) => Some(self.store[i].1.duplicate()),
            None => None,
        }
    }

    /// Records an operation, dropping the oldest when the history is full.
    fn record_operation(&mut self, op: SharedMemoryOperation)
        ensures
            final(self).ops() == if old(self).ops().len() >= old(self).history_limit() && old(self).ops().len() > 0 {
                old(self).ops().drop_first().push(op)
            } else {
                old(self).ops().push(op)
            },
            final(self).store == old(self).store,
            final(self).acl == old(self).acl,
            final(self).max_history == old(self).max_history,
            final(self).events == old(self).events,
    {
        if self.history.len() >= self.max_history && self.history.len() > 0 {
            let ghost h = self.history@;
            self.history.remove(0);
            assert(self.history@ =~= h.drop_first());
        }
        self.history.push(op);
    }

    /// Writes a value with tags (each kept once, in the order of its first
    /// occurrence) at time `now_ms`, when the agent may write the key: a new key gets version 1 and the writer as owner of a public
    /// access control; an existing one gets the next version. Gives back the
    /// version; the change is recorded and its event goes to the outbox.
    pub fn set_with_tags_at(
        &mut self,
        key: &str,
        value: serde_json::Value,
        agent_id: &str,
        tags: Vec<String>,
        now_ms: i64,
    ) -> (r: Result<u64, Error>)
        requires
            old(self).wf(),
            old(self).value_at(key@) matches Some(v) ==> v.version < u64::MAX,
        ensures
            final(self).wf(),
            !may_write(old(self).access(key@), agent_id@) ==> (r matches Err(Error::Agent(m)) && m@
                == no_write_access(agent_id@, key@)),
            !may_write(old(self).access(key@), agent_id@) ==> final(self).keys() == old(self).keys(),
            write_outcome(
                *old(self),
                *final(self),
                key@,
                value,
                agent_id@,
                unique_views(string_views(tags@)),
                now_ms,
                r,
            ),
            may_write(old(self).access(key@), agent_id@) ==> {
                let version: u64 = match old(self).value_at(key@) {
                    Some(v) => (v.version + 1) as u64,
                    None => 1,
                };
                &&& r == Ok::<u64, Error>(version)
                &&& final(self).value_at(key@) matches Some(nv) && shared_view(nv) == (SharedView {
                    value: value,
                    modified_by: agent_id@,
                    modified_at: now_ms,
                    version: version,
                    tags: unique_views(string_views(tags@)),
                })
                &&& forall|k: Seq<char>| k != key@ ==> #[trigger] final(self).value_at(k) == old(self).value_at(k)
                &&& old(self).value_at(key@) is None ==> (final(self).access(key@) matches Some(a)
                    && a.owner@ == agent_id@ && a.is_public && a.readers@.len() == 0
                    && a.writers@.len() == 0)
                &&& old(self).value_at(key@) is Some ==> final(self).access(key@) == old(self).access(
                    key@,
                )
                &&& final(self).outbox().len() == old(self).outbox().len() + 1
            },
    {
        if !self.can_write(key, agent_id) {
            let mut m = chars_of("Agent ");
            extend_str(&mut m, agent_id);
            extend_str(&mut m, " does not have write access to key ");
            extend_str(&mut m, key);
            return Err(Error::Agent(string_from_chars(&m)));
        }
        proof {
            lemma_unique_views(string_views(tags@));
        }
        let tags = unique_strings(tags);
        proof {
            lemma_stored_value(self.store@, key@);
            lemma_key_index(self.store@, key@);
        }
        match find_key(&self.store, key) {
            Some(i) => {
                let old_version = self.store[i].1.version;
                let new_value = SharedValue {
                    value,
                    modified_by: owned(agent_id),
                    modified_at: now_ms,
                    version: old_version + 1,
                    tags,
                };
                let version = new_value.version;
                let old_copy = self.store[i].1.duplicate();
                let event = SharedMemoryEvent::Updated {
                    key: owned(key),
                    old: old_copy,
                    new: new_value.duplicate(),
                };
                let recorded = new_value.duplicate();
                let ghost s0 = self.store@;
                let entry = (owned(key), new_value);
                proof {
                    lemma_key_index_update(s0, i as int, entry, key@);
                    assert forall|k: Seq<char>| #[trigger] key_index(s0.update(i as int, entry), k)
                        == key_index(s0, k) by {
                        lemma_key_index_update(s0, i as int, entry, k);
                    }
                }
                self.store.set(i, entry);
                proof {
                    assert forall|k: Seq<char>| k != key@ implies #[trigger] stored_value(
                        self.store@,
                        k,
                    ) == stored_value(s0, k) by {
                        lemma_stored_value(self.store@, k);
                        lemma_stored_value(s0, k);
                        lemma_key_index(s0, k);
                    }
                    lemma_stored_value(self.store@, key@);
                }
                self.record_operation(
                    SharedMemoryOperation {
                        op_type: SharedMemoryOpType::Update,
                        key: owned(key),
                        value: Some(recorded),
                        agent: owned(agent_id),
                        timestamp: now_ms,
                    },
                );
                self.events.push(event);
                Ok(version)
            },
            None => {
                let new_value = SharedValue {
                    value,
                    modified_by: owned(agent_id),
                    modified_at: now_ms,
                    version: 1,
                    tags,
                };
                let event = SharedMemoryEvent::Created { key: owned(key), value: new_value.duplicate() };
                let recorded = new_value.duplicate();
                let ghost s0 = self.store@;
                self.store.push((owned(key), new_value));
                proof {
                    assert(self.store@.drop_last() =~= s0);
                    assert forall|k: Seq<char>| k != key@ implies #[trigger] stored_value(
                        self.store@,
                        k,
                    ) == stored_value(s0, k) by {}
                    assert(stored_value(s0, key@) is None);
                }
                let acl = AccessControl {
                    readers: Vec::new(),
                    writers: Vec::new(),
                    owner: owned(agent_id),
                    is_public: true,
                };
                self.put_acl(key, acl);
                self.record_operation(
                    SharedMemoryOperation {
                        op_type: SharedMemoryOpType::Create,
                        key: owned(key),
                        value: Some(recorded),
                        agent: owned(agent_id),
                        timestamp: now_ms,
                    },
                );
                self.events.push(event);
                Ok(1)
            },
        }
    }

    /// Sets the access control of a key, replacing any there.
    fn put_acl(&mut self, key: &str, acl: AccessControl)
        requires
            unique_keys_of(old(self).acl@),
        ensures
            unique_keys_of(final(self).acl@),
            final(self).access(key@) == Some(acl),
            forall|k: Seq<char>| k != key@ ==> #[trigger] final(self).access(k) == old(self).access(k),
            final(self).store == old(self).store,
            final(self).history == old(self).history,
            final(self).max_history == old(self).max_history,
            final(self).events == old(self).events,
    {
        proof {
            lemma_acl_of(self.acl@, key@);
            lemma_key_index(self.acl@, key@);
        }
        match find_key(&self.acl, key) {
            Some(i) => {
                let ghost a0 = self.acl@;
                let entry = (owned(key), acl);
                proof {
                    assert forall|k: Seq<char>| #[trigger] key_index(a0.update(i as int, entry), k)
                        == key_index(a0, k) by {
                        lemma_key_index_update(a0, i as int, entry, k);
                    }
                }
                self.acl.set(i, entry);
                proof {
                    assert forall|x: int, y: int| 0 <= x < y < self.acl@.len() implies #[trigger] self.acl@[x].0@
                        != #[trigger] self.acl@[y].0@ by {
                        assert(a0[x].0@ != a0[y].0@);
                    }
                    assert forall|k: Seq<char>| k != key@ implies #[trigger] acl_of(self.acl@, k) == acl_of(
                        a0,
                        k,
                    ) by {
                        lemma_acl_of(self.acl@, k);
                        lemma_acl_of(a0, k);
                        lemma_key_index(a0, k);
                    }
                    lemma_acl_of(self.acl@, key@);
                }
            },
            None => {
                let ghost a0 = self.acl@;
                self.acl.push((owned(key), acl));
                assert(self.acl@.drop_last() =~= a0);
                assert forall|x: int, y: int| 0 <= x < y < self.acl@.len() implies #[trigger] self.acl@[x].0@
                    != #[trigger] self.acl@[y].0@ by {
                    if y < a0.len() {
                        assert(a0[x].0@ != a0[y].0@);
                    }
                }
            },
        }
    }

    /// Writes a value now, without tags; see `set_with_tags_at`.
    pub fn set(&mut self, key: &str, value: serde_json::Value, agent_id: &str) -> (r: Result<
        u64,
        Error,
    >)
        requires
            old(self).wf(),
            old(self).value_at(key@) matches Some(v) ==> v.version < u64::MAX,
        ensures
            final(self).wf(),
            !may_write(old(self).access(key@), agent_id@) ==> (r matches Err(Error::Agent(m)) && m@
                == no_write_access(agent_id@, key@)),
            may_write(old(self).access(key@), agent_id@) ==> (r == Ok::<u64, Error>(
                match old(self).value_at(key@) {
                    Some(v) => (v.version + 1) as u64,
                    None => 1,
                },
            )),
            may_write(old(self).access(key@), agent_id@) ==> (final(self).value_at(key@) matches Some(
                nv,
            ) && nv.value == value && nv.modified_by@ == agent_id@),
            exists|now: i64|
                crate::clock::in_clock_range(now as int) && #[trigger] write_outcome(
                    *old(self),
                    *final(self),
                    key@,
                    value,
                    agent_id@,
                    Seq::empty(),
                    now,
                    r,
                ),
    {
        let now = crate::clock::now_millis();
        let tags: Vec<String> = Vec::new();
        assert(string_views(tags@) =~= Seq::<Seq<char>>::empty());
        assert(unique_views(string_views(tags@)) =~= Seq::<Seq<char>>::empty());
        self.set_with_tags_at(key, value, agent_id, tags, now)
    }

    /// Writes a value with tags now; see `set_with_tags_at`.
    pub fn set_with_tags(
        &mut self,
        key: &str,
        value: serde_json::Value,
        agent_id: &str,
        tags: Vec<String>,
    ) -> (r: Result<u64, Error>)
        requires
            old(self).wf(),
            old(self).value_at(key@) matches Some(v) ==> v.version < u64::MAX,
        ensures
            final(self).wf(),
            !may_write(old(self).access(key@), agent_id@) ==> (r matches Err(Error::Agent(m)) && m@
                == no_write_access(agent_id@, key@)),
            may_write(old(self).access(key@), agent_id@) ==> (r == Ok::<u64, Error>(
                match old(self).value_at(key@) {
                    Some(v) => (v.version + 1) as u64,
                    None => 1,
                },
            )),
            may_write(old(self).access(key@), agent_id@) ==> (final(self).value_at(key@) matches Some(
                nv,
            ) && nv.value == value && string_views(nv.tags@) == unique_views(string_views(tags@))),
            exists|now: i64|
                crate::clock::in_clock_range(now as int) && #[trigger] write_outcome(
                    *old(self),
                    *final(self),
                    key@,
                    value,
                    agent_id@,
                    unique_views(string_views(tags@)),
                    now,
                    r,
                ),
    {
        let now = crate::clock::now_millis();
        self.set_with_tags_at(key, value, agent_id, tags, now)
    }

    /// Deletes the value under `key` at time `now_ms`, when the agent may
    /// write it; a missing key is no error. Access control stays.
    pub fn delete_at(&mut self, key: &str, agent_id: &str, now_ms: i64) -> (r: Result<(), Error>)
        requires
            old(self).wf(),
        ensures
            final(self).wf(),
            delete_outcome(*old(self), *final(self), key@, agent_id@, r),
            !may_write(old(self).access(key@), agent_id@) ==> (r matches Err(Error::Agent(m)) && m@
                == no_write_access(agent_id@, key@)) && final(self).keys() == old(self).keys(),
    {
        if !self.can_write(key, agent_id) {
            let mut m = chars_of("Agent ");
            extend_str(&mut m, agent_id);
            extend_str(&mut m, " does not have write access to key ");
            extend_str(&mut m, key);
            return Err(Error::Agent(string_from_chars(&m)));
        }
        proof {
            lemma_stored_value(self.store@, key@);
            lemma_key_index(self.store@, key@);
        }
        match find_key(&self.store, key) {
            Some(i) => {
                let ghost s0 = self.store@;
                let (_, old_value) = self.store.remove(i);
                proof {
                    lemma_remove_first_key(s0, i as int, key@);
                    assert forall|j: int| 0 <= j < self.store@.len() implies string_views(
                        (#[trigger] self.store@[j]).1.tags@,
                    ).no_duplicates() by {
                        if j < i {
                            assert(self.store@[j] == s0[j]);
                        } else {
                            assert(self.store@[j] == s0[j + 1]);
                        }
                    }
                }
                assert(self.store@ == s0.remove(i as int));
                self.record_operation(
                    SharedMemoryOperation {
                        op_type: SharedMemoryOpType::Delete,
                        key: owned(key),
                        value: None,
                        agent: owned(agent_id),
                        timestamp: now_ms,
                    },
                );
                self.events.push(SharedMemoryEvent::Deleted { key: owned(key), value: old_value });
                Ok(())
            },
            None => Ok(()),
        }
    }

    /// Deletes the value under `key` now; see `delete_at`.
    pub fn delete(&mut self, key: &str, agent_id: &str) -> (r: Result<(), Error>)
        requires
            old(self).wf(),
        ensures
            final(self).wf(),
            !may_write(old(self).access(key@), agent_id@) ==> (r matches Err(Error::Agent(m)) && m@
                == no_write_access(agent_id@, key@)),
            may_write(old(self).access(key@), agent_id@) ==> r is Ok && final(self).value_at(key@) is None,
            delete_outcome(*old(self), *final(self), key@, agent_id@, r),
    {
        let now = crate::clock::now_millis();
        self.delete_at(key, agent_id, now)
    }

    /// Writes a value when the stored version is the expected one (or the
    /// key is new); a different version is a conflict.
    pub fn compare_and_swap(
        &mut self,
        key: &str,
        expected_version: u64,
        new_value: serde_json::Value,
        agent_id: &str,
    ) -> (r: Result<u64, Error>)
        requires
            old(self).wf(),
            old(self).value_at(key@) matches Some(v) ==> v.version < u64::MAX,
        ensures
            final(self).wf(),
            (old(self).value_at(key@) matches Some(v) && v.version != expected_version) ==> (r matches Err(
                Error::Agent(m),
            ) && m@ == "Version conflict: expected "@ + crate::text::dec(expected_version as nat)
                + ", found "@ + crate::text::dec(old(self).value_at(key@)->0.version as nat)),
            (old(self).value_at(key@) matches Some(v) && v.version != expected_version) ==> final(self).keys() == old(self).keys(),
            !(old(self).value_at(key@) matches Some(v) && v.version != expected_version) && may_write(
                old(self).access(key@),
                agent_id@,
            ) ==> r == Ok::<u64, Error>(
                match old(self).value_at(key@) {
                    Some(v) => (v.version + 1) as u64,
                    None => 1,
                },
            ),
    {
        proof {
            lemma_stored_value(self.store@, key@);
            lemma_key_index(self.store@, key@);
        }
        match find_key(&self.store, key) {
            Some(i) => {
                let current = self.store[i].1.version;
                if current != expected_version {
                    let mut m = chars_of("Version conflict: expected ");
                    crate::text::push_dec(&mut m, expected_version);
                    extend_str(&mut m, ", found ");
                    crate::text::push_dec(&mut m, current);
                    return Err(Error::Agent(string_from_chars(&m)));
                }
            },
            None => {},
        }
        self.set(key, new_value, agent_id)
    }

    /// The keys that contain `pattern`, or all keys.
    pub fn list_keys(&self, pattern: Option<&str>) -> (r: Vec<String>)
        ensures
            string_views(r@) == match pattern {
                Some(p) => self.keys().filter(|k: Seq<char>| crate::text::contains(k, p@)),
                None => self.keys(),
            },
    {
        let mut out: Vec<String> = Vec::new();
        let ghost keys = self.keys();
        let mut i: usize = 0;
        while i < self.store.len()
            invariant
                i <= self.store@.len(),
                keys == self.keys(),
                keys.len() == self.store@.len(),
                string_views(out@) == match pattern {
                    Some(p) => keys.take(i as int).filter(|k: Seq<char>| crate::text::contains(k, p@)),
                    None => keys.take(i as int),
                },
            decreases self.store@.len() - i,
        {
            let k = self.store[i].0.as_str();
            assert(keys.take(i + 1) =~= keys.take(i as int).push(k@));
            let keep = match pattern {
                Some(p) => {
                    let kc = chars_of(k);
                    let pc = chars_of(p);
                    crate::text::contains_chars(&kc, &pc)
                },
                None => true,
            };
            let ghost o = out@;
            if keep {
                out.push(owned(k));
                assert(string_views(out@) =~= string_views(o).push(k@));
            }
            proof {
                match pattern {
                    Some(p) => {
                        keys.take(i as int).lemma_filter_push(
                            k@,
                            |kk: Seq<char>| crate::text::contains(kk, p@),
                        );
                    },
                    None => {},
                }
            }
            i += 1;
        }
        assert(keys.take(keys.len() as int) =~= keys);
        out
    }

    /// The entries whose tags hold `tag`, in the order of the store.
    pub fn find_by_tag(&self, tag: &str) -> (r: Vec<(String, SharedValue)>)
        ensures
            entry_views(r@) == self.entries().filter(|e: (Seq<char>, SharedView)| e.1.tags.contains(tag@)),
            forall|j: int|
                0 <= j < r@.len() ==> string_views((#[trigger] r@[j]).1.tags@).contains(tag@)
                    && self.value_at(r@[j].0@) is Some,
            r@.len() <= self.keys().len(),
    {
        let mut out: Vec<(String, SharedValue)> = Vec::new();
        let ghost es = self.entries();
        let mut i: usize = 0;
        while i < self.store.len()
            invariant
                i <= self.store@.len(),
                es == self.entries(),
                es == entry_views(self.store@),
                out@.len() <= i,
                entry_views(out@) == es.take(i as int).filter(
                    |e: (Seq<char>, SharedView)| e.1.tags.contains(tag@),
                ),
                forall|j: int|
                    0 <= j < out@.len() ==> string_views((#[trigger] out@[j]).1.tags@).contains(tag@)
                        && stored_value(self.store@, out@[j].0@) is Some,
            decreases self.store@.len() - i,
        {
            let entry = &self.store[i];
            assert(es.take(i + 1) =~= es.take(i as int).push(es[i as int]));
            assert(es[i as int] == (entry.0@, shared_view(entry.1)));
            let ghost o = out@;
            if contains_str(&entry.1.tags, tag) {
                proof {
                    lemma_stored_value(self.store@, entry.0@);
                    lemma_key_index(self.store@, entry.0@);
                }
                let item = (owned(entry.0.as_str()), entry.1.duplicate());
                out.push(item);
                assert(entry_views(out@) =~= entry_views(o).push(es[i as int]));
            }
            proof {
                es.take(i as int).lemma_filter_push(
                    es[i as int],
                    |e: (Seq<char>, SharedView)| e.1.tags.contains(tag@),
                );
            }
            i += 1;
        }
        assert(es.take(es.len() as int) =~= es);
        out
    }

    /// Sets the access control of a key; only the owner may change an
    /// existing one.
    pub fn set_acl(&mut self, key: &str, acl: AccessControl, agent_id: &str) -> (r: Result<(), Error>)
        requires
            old(self).wf(),
        ensures
            final(self).wf(),
            (old(self).access(key@) matches Some(a) && a.owner@ != agent_id@) ==> (r matches Err(
                Error::Agent(m),
            ) && m@ == "Only the owner can modify ACL for key "@ + key@) && forall|k: Seq<char>|
                #[trigger] final(self).access(k) == old(self).access(k),
            !(old(self).access(key@) matches Some(a) && a.owner@ != agent_id@) ==> r is Ok && final(self).access(key@) == Some(acl) && forall|k: Seq<char>|
                k != key@ ==> #[trigger] final(self).access(k) == old(self).access(k),
            forall|k: Seq<char>| #[trigger] final(self).value_at(k) == old(self).value_at(k),
    {
        proof {
            lemma_acl_of(self.acl@, key@);
            lemma_key_index(self.acl@, key@);
        }
        match find_key(&self.acl, key) {
            Some(i) => {
                if !str_eq(self.acl[i].1.owner.as_str(), agent_id) {
                    let mut m = chars_of("Only the owner can modify ACL for key ");
                    extend_str(&mut m, key);
                    return Err(Error::Agent(string_from_chars(&m)));
                }
            },
            None => {},
        }
        self.put_acl(key, acl);
        Ok(())
    }

    /// Takes the events out of the outbox.
    pub fn take_events(&mut self) -> (r: Vec<SharedMemoryEvent>)
        ensures
            final(self).wf() == old(self).wf(),
            r@ == old(self).outbox(),
            final(self).outbox().len() == 0,
            forall|k: Seq<char>| #[trigger] final(self).value_at(k) == old(self).value_at(k),
            forall|k: Seq<char>| #[trigger] final(self).access(k) == old(self).access(k),
    {
        let mut out: Vec<SharedMemoryEvent> = Vec::new();
        std::mem::swap(&mut out, &mut self.events);
        out
    }
}

/// Whether no key occurs twice in a keyed list.
pub open spec fn unique_keys_of<T>(s: Seq<(String, T)>) -> bool {
    forall|a: int, b: int| 0 <= a < b < s.len() ==> #[trigger] s[a].0@ != #[trigger] s[b].0@
}

/// Without an entry for the key, nothing is stored under it.
proof fn lemma_stored_absent(s: Seq<(String, SharedValue)>, key: Seq<char>)
    requires
        forall|j: int| 0 <= j < s.len() ==> #[trigger] s[j].0@ != key,
    ensures
        stored_value(s, key) is None,
{
    lemma_key_index_none(s, key);
    lemma_stored_value(s, key);
}

/// With unique keys, removing the entry of a key removes that key and no
/// other.
proof fn lemma_remove_first_key(s: Seq<(String, SharedValue)>, i: int, key: Seq<char>)
    requires
        unique_keys_of(s),
        0 <= i < s.len(),
        s[i].0@ == key,
    ensures
        forall|k: Seq<char>| k != key ==> #[trigger] stored_value(s.remove(i), k) == stored_value(s, k),
        stored_value(s.remove(i), key) is None,
        unique_keys_of(s.remove(i)),
    decreases s.len(),
{
    let pre = s.drop_last();
    let r = s.remove(i);
    assert(unique_keys_of(pre));
    if i == s.len() - 1 {
        assert(r =~= pre);
        assert forall|j: int| 0 <= j < pre.len() implies #[trigger] pre[j].0@ != key by {
            assert(s[j].0@ != s[i].0@);
        }
        lemma_stored_absent(pre, key);
        assert forall|k: Seq<char>| k != key implies #[trigger] stored_value(r, k) == stored_value(
            s,
            k,
        ) by {}
    } else {
        assert(r.drop_last() =~= pre.remove(i));
        assert(r.last() == s.last());
        assert(s.last().0@ != key);
        lemma_remove_first_key(pre, i, key);
        assert forall|k: Seq<char>| k != key implies #[trigger] stored_value(r, k) == stored_value(
            s,
            k,
        ) by {
            assert(stored_value(pre.remove(i), k) == stored_value(pre, k));
        }
    }
    assert forall|a: int, b: int| 0 <= a < b < r.len() implies #[trigger] r[a].0@ != #[trigger] r[b].0@ by {
        let a0 = if a < i { a } else { a + 1 };
        let b0 = if b < i { b } else { b + 1 };
        assert(s[a0].0@ != s[b0].0@);
    }
}

// ─── Protocol messages ───────────────────────────────────────────────────────

/// A message of the agent communication protocol.
#[derive(Debug)]
pub struct ACPMessage {
    /// Unique message ID.
    pub id: String,
    /// Protocol version.
    pub version: String,
    /// Sender agent ID.
    pub sender: String,
    /// Recipient agent ID; `None` broadcasts.
    pub recipient: Option<String>,
    /// Session.
    pub session_id: SessionId,
    /// Message type.
    pub message_type: ACPMessageType,
    /// Payload.
    pub payload: serde_json::Value,
    /// Priority; higher is more urgent.
    pub priority: u8,
    /// When it was made, in milliseconds since the Unix epoch.
    pub timestamp: i64,
    /// Time to live in seconds; `None` never expires.
    pub ttl: Option<u64>,
    /// Correlation ID for request and response.
    pub correlation_id: Option<String>,
    /// Metadata, by key.
    pub metadata: Vec<(String, serde_json::Value)>,
}

/// The view of an optional text.
pub open spec fn opt_view(o: Option<String>) -> Option<Seq<char>> {
    match o {
        Some(s) => Some(s@),
        None => None,
    }
}

/// Whether a message made at `timestamp` that lives `ttl` seconds has
/// expired at `now_ms`.
pub open spec fn acp_expired(timestamp: int, ttl: Option<u64>, now_ms: int) -> bool {
    match ttl {
        Some(t) => now_ms > timestamp + t * 1000,
        None => false,
    }
}

impl ACPMessage {
    /// A message from `sender` stamped `now_ms`: a fresh ID, this protocol
    /// version, no recipient, priority 5, no expiry, correlation or
    /// metadata.
    pub fn new_at(
        sender: &str,
        session_id: SessionId,
        message_type: ACPMessageType,
        payload: serde_json::Value,
        now_ms: i64,
    ) -> (r: ACPMessage)
        ensures
            r.id@.len() == 36,
            r.version@ == ACP_VERSION@,
            r.sender@ == sender@,
            r.recipient is None,
            r.session_id == session_id,
            r.message_type == message_type,
            r.payload == payload,
            r.priority == 5,
            r.timestamp == now_ms,
            r.ttl is None,
            r.correlation_id is None,
            r.metadata@.len() == 0,
    {
        ACPMessage {
            id: crate::ids::new_uuid_v4(),
            version: owned(ACP_VERSION),
            sender: owned(sender),
            recipient: None,
            session_id,
            message_type,
            payload,
            priority: 5,
            timestamp: now_ms,
            ttl: None,
            correlation_id: None,
            metadata: Vec::new(),
        }
    }

    /// A message stamped now; see `new_at`.
    pub fn new(
        sender: &str,
        session_id: SessionId,
        message_type: ACPMessageType,
        payload: serde_json::Value,
    ) -> (r: ACPMessage)
        ensures
            r.id@.len() == 36,
            r.version@ == ACP_VERSION@,
            r.sender@ == sender@,
            r.recipient is None,
            r.session_id == session_id,
            r.message_type == message_type,
            r.payload == payload,
            r.priority == 5,
            r.ttl is None,
            r.correlation_id is None,
            r.metadata@.len() == 0,
    {
        let now = crate::clock::now_millis();
        Self::new_at(sender, session_id, message_type, payload, now)
    }

    /// The same message addressed to `recipient`.
    pub fn to(self, recipient: &str) -> (r: ACPMessage)
        ensures
            opt_view(r.recipient) == Some(recipient@),
            r.id == self.id && r.sender == self.sender && r.priority == self.priority,
            r.ttl == self.ttl && r.correlation_id == self.correlation_id,
            r.message_type == self.message_type && r.payload == self.payload,
            r.timestamp == self.timestamp,
    {
        ACPMessage { recipient: Some(owned(recipient)), ..self }
    }

    /// The same message with another priority.
    pub fn with_priority(self, priority: u8) -> (r: ACPMessage)
        ensures
            r.priority == priority,
            r.id == self.id && r.sender == self.sender && r.recipient == self.recipient,
            r.ttl == self.ttl && r.correlation_id == self.correlation_id,
            r.message_type == self.message_type && r.payload == self.payload,
            r.timestamp == self.timestamp,
    {
        ACPMessage { priority, ..self }
    }

    /// The same message with a time to live.
    pub fn with_ttl(self, ttl_seconds: u64) -> (r: ACPMessage)
        ensures
            r.ttl == Some(ttl_seconds),
            r.id == self.id && r.sender == self.sender && r.recipient == self.recipient,
            r.priority == self.priority && r.correlation_id == self.correlation_id,
            r.message_type == self.message_type && r.payload == self.payload,
            r.timestamp == self.timestamp,
    {
        ACPMessage { ttl: Some(ttl_seconds), ..self }
    }

    /// The same message with a correlation ID.
    pub fn with_correlation(self, id: &str) -> (r: ACPMessage)
        ensures
            opt_view(r.correlation_id) == Some(id@),
            r.id == self.id && r.sender == self.sender && r.recipient == self.recipient,
            r.priority == self.priority && r.ttl == self.ttl,
            r.message_type == self.message_type && r.payload == self.payload,
            r.timestamp == self.timestamp,
    {
        ACPMessage { correlation_id: Some(owned(id)), ..self }
    }

    /// The same message with a metadata entry, replacing one under the key.
    pub fn with_metadata(self, key: &str, value: serde_json::Value) -> (r: ACPMessage)
        ensures
            match key_index(self.metadata@, key@) {
                Some(i) => r.metadata@.len() == self.metadata@.len() && r.metadata@[i].0@ == key@
                    && r.metadata@[i].1 == value && forall|j: int|
                    0 <= j < self.metadata@.len() && j != i ==> #[trigger] r.metadata@[j]
                        == self.metadata@[j],
                None => r.metadata@.drop_last() == self.metadata@ && r.metadata@.last().0@ == key@
                    && r.metadata@.last().1 == value,
            },
            r.id == self.id && r.sender == self.sender && r.recipient == self.recipient,
            r.priority == self.priority && r.ttl == self.ttl,
            r.message_type == self.message_type && r.payload == self.payload,
    {
        let mut me = self;
        proof {
            lemma_key_index(me.metadata@, key@);
        }
        match find_key(&me.metadata, key) {
            Some(i) => {
                me.metadata.set(i, (owned(key), value));
            },
            None => {
                let ghost m0 = me.metadata@;
                me.metadata.push((owned(key), value));
                assert(me.metadata@.drop_last() =~= m0);
            },
        }
        me
    }

    /// Whether the message has expired at `now_ms`.
    pub fn is_expired_at(&self, now_ms: i64) -> (r: bool)
        ensures
            r == acp_expired(self.timestamp as int, self.ttl, now_ms as int),
    {
        match self.ttl {
            Some(t) => (now_ms as i128) > (self.timestamp as i128) + (t as i128) * 1000,
            None => false,
        }
    }

    /// Whether the message has expired now; without a time to live it
    /// never does.
    pub fn is_expired(&self) -> (r: bool)
        ensures
            self.ttl is None ==> !r,
            exists|now: i64| r == acp_expired(self.timestamp as int, self.ttl, now as int),
    {
        let now = crate::clock::now_millis();
        self.is_expired_at(now)
    }

    /// A reply from `sender` stamped `now_ms`: addressed to this message's
    /// sender, in its session, a response with its priority, correlated to
    /// its ID.
    pub fn reply_at(&self, sender: &str, payload: serde_json::Value, now_ms: i64) -> (r: ACPMessage)
        ensures
            r.id@.len() == 36,
            r.version@ == ACP_VERSION@,
            r.sender@ == sender@,
            opt_view(r.recipient) == Some(self.sender@),
            r.session_id.0@ == self.session_id.0@,
            r.message_type == ACPMessageType::Response,
            r.payload == payload,
            r.priority == self.priority,
            r.timestamp == now_ms,
            r.ttl is None,
            opt_view(r.correlation_id) == Some(self.id@),
            r.metadata@.len() == 0,
    {
        ACPMessage {
            id: crate::ids::new_uuid_v4(),
            version: owned(ACP_VERSION),
            sender: owned(sender),
            recipient: Some(owned(self.sender.as_str())),
            session_id: SessionId(owned(self.session_id.0.as_str())),
            message_type: ACPMessageType::Response,
            payload,
            priority: self.priority,
            timestamp: now_ms,
            ttl: None,
            correlation_id: Some(owned(self.id.as_str())),
            metadata: Vec::new(),
        }
    }

    /// A reply stamped now; see `reply_at`.
    pub fn reply(&self, sender: &str, payload: serde_json::Value) -> (r: ACPMessage)
        ensures
            r.sender@ == sender@,
            opt_view(r.recipient) == Some(self.sender@),
            r.session_id.0@ == self.session_id.0@,
            r.message_type == ACPMessageType::Response,
            r.payload == payload,
            r.priority == self.priority,
            opt_view(r.correlation_id) == Some(self.id@),
    {
        let now = crate::clock::now_millis();
        self.reply_at(sender, payload, now)
    }
}

// ─── Task delegation ─────────────────────────────────────────────────────────

/// A task that can be delegated among agents.
#[derive(Debug)]
pub struct CollaborativeTask {
    /// Unique ID.
    pub id: String,
    /// Description.
    pub description: String,
    /// Who asked for it.
    pub requestor: String,
    /// The assigned agent.
    pub assignee: Option<String>,
    /// Status.
    pub status: TaskStatus,
    /// Capabilities an agent needs for it.
    pub required_capabilities: Vec<String>,
    /// Priority, 0 to 10.
    pub priority: u8,
    /// Deadline, in milliseconds since the Unix epoch.
    pub deadline: Option<i64>,
    /// Input data.
    pub input: serde_json::Value,
    /// Output data.
    pub output: Option<serde_json::Value>,
    /// Progress in percent.
    pub progress: u8,
    /// Error message, when failed.
    pub error: Option<String>,
    /// When it was created, in milliseconds since the Unix epoch.
    pub created_at: i64,
    /// When it last changed, in milliseconds since the Unix epoch.
    pub updated_at: i64,
    /// Subtask IDs.
    pub subtasks: Vec<String>,
    /// Parent task ID.
    pub parent_task: Option<String>,
    /// Metadata, by key.
    pub metadata: Vec<(String, serde_json::Value)>,
}

impl CollaborativeTask {
    /// A pending task created at `now_ms`, with a fresh ID, priority 5, no
    /// requirements, null input and no progress.
    pub fn new_at(description: &str, requestor: &str, now_ms: i64) -> (r: CollaborativeTask)
        ensures
            r.id@.len() == 36,
            r.description@ == description@,
            r.requestor@ == requestor@,
            r.assignee is None,
            r.status == TaskStatus::Pending,
            r.required_capabilities@.len() == 0,
            r.priority == 5,
            r.deadline is None,
            r.output is None,
            r.progress == 0,
            r.error is None,
            r.created_at == now_ms && r.updated_at == now_ms,
            r.subtasks@.len() == 0,
            r.parent_task is None,
            r.metadata@.len() == 0,
    {
        CollaborativeTask {
            id: crate::ids::new_uuid_v4(),
            description: owned(description),
            requestor: owned(requestor),
            assignee: None,
            status: TaskStatus::Pending,
            required_capabilities: Vec::new(),
            priority: 5,
            deadline: None,
            input: crate::json::null_value(),
            output: None,
            progress: 0,
            error: None,
            created_at: now_ms,
            updated_at: now_ms,
            subtasks: Vec::new(),
            parent_task: None,
            metadata: Vec::new(),
        }
    }

    /// A pending task created now; see `new_at`.
    pub fn new(description: &str, requestor: &str) -> (r: CollaborativeTask)
        ensures
            r.id@.len() == 36,
            r.description@ == description@,
            r.requestor@ == requestor@,
            r.assignee is None,
            r.status == TaskStatus::Pending,
            r.required_capabilities@.len() == 0,
            r.priority == 5,
            r.progress == 0,
    {
        let now = crate::clock::now_millis();
        Self::new_at(description, requestor, now)
    }

    /// The same task with required capabilities.
    pub fn with_capabilities(self, capabilities: Vec<String>) -> (r: CollaborativeTask)
        ensures
            r.required_capabilities == capabilities,
            r.id == self.id && r.status == self.status && r.priority == self.priority,
            r.assignee == self.assignee && r.deadline == self.deadline,
    {
        CollaborativeTask { required_capabilities: capabilities, ..self }
    }

    /// The same task with a priority, capped at 10.
    pub fn with_priority(self, priority: u8) -> (r: CollaborativeTask)
        ensures
            r.priority == if priority < 10 {
                priority
            } else {
                10
            },
            r.id == self.id && r.status == self.status,
            r.required_capabilities == self.required_capabilities,
            r.assignee == self.assignee && r.deadline == self.deadline,
    {
        let p = if priority < 10 {
            priority
        } else {
            10
        };
        CollaborativeTask { priority: p, ..self }
    }

    /// The same task with a deadline.
    pub fn with_deadline(self, deadline: i64) -> (r: CollaborativeTask)
        ensures
            r.deadline == Some(deadline),
            r.id == self.id && r.status == self.status && r.priority == self.priority,
            r.required_capabilities == self.required_capabilities,
    {
        CollaborativeTask { deadline: Some(deadline), ..self }
    }

    /// The same task with input data.
    pub fn with_input(self, input: serde_json::Value) -> (r: CollaborativeTask)
        ensures
            r.input == input,
            r.id == self.id && r.status == self.status && r.priority == self.priority,
            r.required_capabilities == self.required_capabilities,
    {
        CollaborativeTask { input, ..self }
    }

    /// Whether the task is past its deadline at `now_ms`.
    pub fn is_overdue_at(&self, now_ms: i64) -> (r: bool)
        ensures
            r == match self.deadline {
                Some(d) => now_ms > d,
                None => false,
            },
    {
        match self.deadline {
            Some(d) => now_ms > d,
            None => false,
        }
    }

    /// Whether the task is past its deadline now; one without deadline
    /// never is.
    pub fn is_overdue(&self) -> (r: bool)
        ensures
            self.deadline is None ==> !r,
            exists|now: i64|
                crate::clock::in_clock_range(now as int) && r == match self.deadline {
                    Some(d) => now > d,
                    None => false,
                },
    {
        let now = crate::clock::now_millis();
        self.is_overdue_at(now)
    }

    /// A copy of the task.
    pub fn duplicate(&self) -> (r: CollaborativeTask)
        ensures
            r.id@ == self.id@,
            r.status == self.status,
            r.progress == self.progress,
            r.priority == self.priority,
            opt_view(r.assignee) == opt_view(self.assignee),
            string_views(r.required_capabilities@) == string_views(self.required_capabilities@),
            r.input == self.input,
            r.output == self.output,
    {
        let mut metadata: Vec<(String, serde_json::Value)> = Vec::new();
        let mut i: usize = 0;
        while i < self.metadata.len()
            invariant
                i <= self.metadata@.len(),
            decreases self.metadata@.len() - i,
        {
            let (k, v) = (&self.metadata[i].0, &self.metadata[i].1);
            metadata.push((owned(k.as_str()), crate::json::clone_value(v)));
            i += 1;
        }
        CollaborativeTask {
            id: owned(self.id.as_str()),
            description: owned(self.description.as_str()),
            requestor: owned(self.requestor.as_str()),
            assignee: match &self.assignee {
                Some(a) => Some(owned(a.as_str())),
                None => None,
            },
            status: self.status,
            required_capabilities: copy_strings(&self.required_capabilities),
            priority: self.priority,
            deadline: self.deadline,
            input: crate::json::clone_value(&self.input),
            output: match &self.output {
                Some(o) => Some(crate::json::clone_value(o)),
                None => None,
            },
            progress: self.progress,
            error: match &self.error {
                Some(e) => Some(owned(e.as_str())),
                None => None,
            },
            created_at: self.created_at,
            updated_at: self.updated_at,
            subtasks: copy_strings(&self.subtasks),
            parent_task: match &self.parent_task {
                Some(p) => Some(owned(p.as_str())),
                None => None,
            },
            metadata,
        }
    }
}

/// Events of the task delegator.
#[derive(Debug)]
pub enum TaskEvent {
    /// A task was submitted.
    Created(CollaborativeTask),
    /// A task was assigned.
    Assigned {
        /// Task ID.
        task_id: String,
        /// Agent ID.
        agent_id: String,
    },
    /// Progress was reported.
    Progress {
        /// Task ID.
        task_id: String,
        /// Progress in percent, as reported.
        progress: u8,
    },
    /// A task completed.
    Completed {
        /// Task ID.
        task_id: String,
        /// Output.
        output: serde_json::Value,
    },
    /// A task failed.
    Failed {
        /// Task ID.
        task_id: String,
        /// Error message.
        error: String,
    },
    /// A task was cancelled.
    Cancelled {
        /// Task ID.
        task_id: String,
    },
}

/// The workload of an agent: its count, or zero when unknown.
pub open spec fn load_of(w: Seq<(String, usize)>, agent: Seq<char>) -> int {
    match key_index(w, agent) {
        Some(i) => w[i].1 as int,
        None => 0,
    }
}

/// The capabilities registered under the first entry for `agent`.
pub open spec fn caps_lookup(s: Seq<(String, Vec<String>)>, agent: Seq<char>) -> Option<Seq<Seq<char>>> {
    match key_index(s, agent) {
        Some(i) => Some(string_views(s[i].1@)),
        None => None,
    }
}

/// Whether an agent's capabilities cover every requirement.
pub open spec fn covers(caps: Seq<Seq<char>>, required: Seq<Seq<char>>) -> bool {
    forall|i: int| 0 <= i < required.len() ==> caps.contains(#[trigger] required[i])
}

/// Whether `k` is the first task with the ID.
pub open spec fn first_task(ts: Seq<CollaborativeTask>, id: Seq<char>, k: int) -> bool {
    &&& 0 <= k < ts.len()
    &&& ts[k].id@ == id
    &&& forall|j: int| 0 <= j < k ==> #[trigger] ts[j].id@ != id
}

/// A refused task operation: the error, and nothing changes.
pub open spec fn task_refused(before: TaskDelegator, after: TaskDelegator, r: Result<(), Error>, msg: Seq<char>) -> bool {
    &&& r matches Err(Error::Agent(m)) && m@ == msg
    &&& after.task_list() == before.task_list()
    &&& after.outbox() == before.outbox()
    &&& forall|a: Seq<char>| #[trigger] after.load(a) == before.load(a)
}

/// The first task with the ID was replaced by `after`'s task at `k`; the
/// other tasks stay, and one event was sent.
pub open spec fn task_changed(before: TaskDelegator, after: TaskDelegator, k: int) -> bool {
    &&& after.task_list() == before.task_list().update(k, after.task_list()[k])
    &&& after.outbox().len() == before.outbox().len() + 1
    &&& after.outbox().drop_last() == before.outbox()
    &&& after.limit() == before.limit()
}

/// What assigning task `tid` to `agent` at `now` does, with result `r`.
pub open spec fn assign_outcome(before: TaskDelegator, after: TaskDelegator, tid: Seq<char>, agent: Seq<char>, now: i64, r: Result<(), Error>) -> bool {
    if !before.has_task(tid) {
        task_refused(before, after, r, task_missing(tid))
    } else if before.load(agent) >= before.limit() {
        task_refused(before, after, r, "Agent "@ + agent + " has reached maximum task limit"@)
    } else {
        exists|k: int| #[trigger] first_task(before.task_list(), tid, k) && {
            &&& r is Ok
            &&& task_changed(before, after, k)
            &&& after.task_list()[k] == (CollaborativeTask {
                status: TaskStatus::Assigned,
                assignee: after.task_list()[k].assignee,
                updated_at: now,
                ..before.task_list()[k]
            })
            &&& opt_view(after.task_list()[k].assignee) == Some(agent)
            &&& after.outbox().last() matches TaskEvent::Assigned { task_id: ev_id, agent_id: ev_agent } && ev_id@ == tid && ev_agent@ == agent
            &&& after.load(agent) == before.load(agent) + 1
            &&& forall|a: Seq<char>| a != agent ==> #[trigger] after.load(a) == before.load(a)
        }
    }
}

/// What reporting `progress` on task `tid` at `now` does, with result `r`.
pub open spec fn progress_outcome(before: TaskDelegator, after: TaskDelegator, tid: Seq<char>, progress: u8, now: i64, r: Result<(), Error>) -> bool {
    if !before.has_task(tid) {
        task_refused(before, after, r, task_missing(tid))
    } else {
        exists|k: int| #[trigger] first_task(before.task_list(), tid, k) && {
            &&& r is Ok
            &&& task_changed(before, after, k)
            &&& after.task_list()[k] == (CollaborativeTask {
                status: TaskStatus::InProgress,
                progress: if progress < 100 { progress } else { 100 },
                updated_at: now,
                ..before.task_list()[k]
            })
            &&& after.outbox().last() matches TaskEvent::Progress { task_id: ev_id, progress: ev_p } && ev_id@ == tid && ev_p == progress
            &&& forall|a: Seq<char>| #[trigger] after.load(a) == before.load(a)
        }
    }
}

/// The workloads after the task's assignee, if any, finished one task.
pub open spec fn released(before: TaskDelegator, after: TaskDelegator, t: CollaborativeTask) -> bool {
    match t.assignee {
        Some(a) => after.load(a@) == (if before.load(a@) > 0 { before.load(a@) - 1 } else { 0 })
            && forall|b: Seq<char>| b != a@ ==> #[trigger] after.load(b) == before.load(b),
        None => forall|b: Seq<char>| #[trigger] after.load(b) == before.load(b),
    }
}

proof fn lemma_released_same_loads(before: TaskDelegator, mid: TaskDelegator, after: TaskDelegator, t: CollaborativeTask)
    requires
        released(before, mid, t),
        forall|b: Seq<char>| #[trigger] after.load(b) == mid.load(b),
    ensures
        released(before, after, t),
{
    match t.assignee {
        Some(a) => {
            assert(after.load(a@) == mid.load(a@));
        },
        None => {},
    }
}

/// What completing task `tid` with `output` at `now` does, with result `r`.
pub open spec fn complete_outcome(before: TaskDelegator, after: TaskDelegator, tid: Seq<char>, output: serde_json::Value, now: i64, r: Result<(), Error>) -> bool {
    if !before.has_task(tid) {
        task_refused(before, after, r, task_missing(tid))
    } else {
        exists|k: int| #[trigger] first_task(before.task_list(), tid, k) && {
            &&& r is Ok
            &&& task_changed(before, after, k)
            &&& after.task_list()[k] == (CollaborativeTask {
                status: TaskStatus::Completed,
                progress: 100,
                output: Some(output),
                updated_at: now,
                ..before.task_list()[k]
            })
            &&& after.outbox().last() matches TaskEvent::Completed { task_id: ev_id, output: ev_o } && ev_id@ == tid && ev_o == output
            &&& released(before, after, before.task_list()[k])
        }
    }
}

/// What failing task `tid` with `error` at `now` does, with result `r`.
pub open spec fn fail_outcome(before: TaskDelegator, after: TaskDelegator, tid: Seq<char>, error: Seq<char>, now: i64, r: Result<(), Error>) -> bool {
    if !before.has_task(tid) {
        task_refused(before, after, r, task_missing(tid))
    } else {
        exists|k: int| #[trigger] first_task(before.task_list(), tid, k) && {
            &&& r is Ok
            &&& task_changed(before, after, k)
            &&& after.task_list()[k] == (CollaborativeTask {
                status: TaskStatus::Failed,
                error: after.task_list()[k].error,
                updated_at: now,
                ..before.task_list()[k]
            })
            &&& opt_view(after.task_list()[k].error) == Some(error)
            &&& after.outbox().last() matches TaskEvent::Failed { task_id: ev_id, error: ev_e } && ev_id@ == tid && ev_e@ == error
            &&& released(before, after, before.task_list()[k])
        }
    }
}

/// The message of a missing task.
pub open spec fn task_missing(id: Seq<char>) -> Seq<char> {
    "Task "@ + id + " not found"@
}

/// Delegates tasks to agents by capability and workload.
pub struct TaskDelegator {
    tasks: Vec<CollaborativeTask>,
    capabilities: Vec<(String, Vec<String>)>,
    workload: Vec<(String, usize)>,
    max_tasks_per_agent: usize,
    events: Vec<TaskEvent>,
}

impl TaskDelegator {
    /// The tasks, in submission order.
    pub closed spec fn task_list(&self) -> Seq<CollaborativeTask> {
        self.tasks@
    }

    /// The registered agents and their capabilities.
    pub closed spec fn agents(&self) -> Seq<(Seq<char>, Seq<Seq<char>>)> {
        self.capabilities@.map_values(|e: (String, Vec<String>)| (e.0@, string_views(e.1@)))
    }

    /// The capabilities registered for an agent, if any.
    pub closed spec fn caps_of(&self, agent: Seq<char>) -> Option<Seq<Seq<char>>> {
        caps_lookup(self.capabilities@, agent)
    }

    /// The workload of an agent.
    pub closed spec fn load(&self, agent: Seq<char>) -> int {
        load_of(self.workload@, agent)
    }

    /// The limit of tasks per agent.
    pub closed spec fn limit(&self) -> usize {
        self.max_tasks_per_agent
    }

    /// The events not yet taken out.
    pub closed spec fn outbox(&self) -> Seq<TaskEvent> {
        self.events@
    }

    /// A delegator allowing five tasks per agent.
    pub fn new() -> (r: TaskDelegator)
        ensures
            r.task_list().len() == 0,
            r.agents().len() == 0,
            r.limit() == 5,
            forall|a: Seq<char>| #[trigger] r.load(a) == 0,
    {
        Self::with_max_tasks(5)
    }

    /// A delegator allowing `max_tasks` tasks per agent.
    pub fn with_max_tasks(max_tasks: usize) -> (r: TaskDelegator)
        ensures
            r.task_list().len() == 0,
            r.agents().len() == 0,
            r.limit() == max_tasks,
            forall|a: Seq<char>| #[trigger] r.load(a) == 0,
    {
        let r = TaskDelegator {
            tasks: Vec::new(),
            capabilities: Vec::new(),
            workload: Vec::new(),
            max_tasks_per_agent: max_tasks,
            events: Vec::new(),
        };
        assert(r.agents() =~= Seq::<(Seq<char>, Seq<Seq<char>>)>::empty());
        r
    }

    /// Registers an agent's capabilities, replacing earlier ones; its
    /// workload starts at zero when new.
    pub fn register_capabilities(&mut self, agent_id: &str, caps: Vec<String>)
        ensures
            final(self).caps_of(agent_id@) == Some(string_views(caps@)),
            forall|a: Seq<char>|
                a != agent_id@ ==> #[trigger] final(self).caps_of(a) == old(self).caps_of(a),
            old(self).caps_of(agent_id@) is None ==> final(self).agents() == old(self).agents().push(
                (agent_id@, string_views(caps@)),
            ),
            old(self).caps_of(agent_id@) is Some ==> exists|i: int|
                0 <= i < old(self).agents().len() && old(self).agents()[i].0 == agent_id@
                    && final(self).agents() == old(self).agents().update(
                    i,
                    (agent_id@, string_views(caps@)),
                ),
            forall|a: Seq<char>| #[trigger] final(self).load(a) == old(self).load(a),
            final(self).task_list() == old(self).task_list(),
            final(self).limit() == old(self).limit(),
    {
        proof {
            lemma_key_index(self.capabilities@, agent_id@);
            lemma_key_index(self.workload@, agent_id@);
        }
        let ghost c0 = self.capabilities@;
        let ghost cv = string_views(caps@);
        let entry = (owned(agent_id), caps);
        match find_key(&self.capabilities, agent_id) {
            Some(i) => {
                self.capabilities.set(i, entry);
                proof {
                    assert forall|a: Seq<char>| #[trigger] key_index(self.capabilities@, a) == key_index(c0, a) by {
                        lemma_key_index_update(c0, i as int, self.capabilities@[i as int], a);
                    }
                    assert forall|a: Seq<char>| a != agent_id@ implies #[trigger] caps_lookup(self.capabilities@, a) == caps_lookup(c0, a) by {
                        lemma_key_index(c0, a);
                    }
                    assert(self.agents() =~= old(self).agents().update(i as int, (agent_id@, cv)));
                    assert(old(self).agents()[i as int].0 == agent_id@);
                }
            },
            None => {
                self.capabilities.push(entry);
                proof {
                    lemma_key_index_push(c0, self.capabilities@.last());
                    assert(self.capabilities@ == c0.push(self.capabilities@.last()));
                    assert forall|a: Seq<char>| a != agent_id@ implies #[trigger] caps_lookup(self.capabilities@, a) == caps_lookup(c0, a) by {
                        lemma_key_index(c0, a);
                    }
                    assert(self.agents() =~= old(self).agents().push((agent_id@, cv)));
                }
            },
        }
        let ghost c1 = self.capabilities@;
        assert(forall|a: Seq<char>| a != agent_id@ ==> #[trigger] caps_lookup(c1, a) == caps_lookup(c0, a));
        match find_key(&self.workload, agent_id) {
            Some(_) => {},
            None => {
                let ghost w0 = self.workload@;
                self.workload.push((owned(agent_id), 0));
                proof {
                    assert(self.workload@.drop_last() =~= w0);
                    assert forall|a: Seq<char>| #[trigger] load_of(self.workload@, a) == load_of(w0, a) by {
                        lemma_key_index(w0, a);
                        lemma_key_index(self.workload@, a);
                    }
                }
            },
        }
    }

    /// The workload of an agent.
    pub fn get_workload(&self, agent_id: &str) -> (r: usize)
        ensures
            r == self.load(agent_id@),
    {
        proof {
            lemma_key_index(self.workload@, agent_id@);
        }
        match find_key(&self.workload, agent_id) {
            Some(i) => self.workload[i].1,
            None => 0,
        }
    }

    /// Submits a task and gives back its ID; a `Created` event goes to the
    /// outbox.
    pub fn submit_task(&mut self, task: CollaborativeTask) -> (r: String)
        ensures
            r@ == task.id@,
            final(self).task_list().len() <= old(self).task_list().len() + 1,
            exists|i: int|
                0 <= i < final(self).task_list().len() && #[trigger] final(self).task_list()[i] == task,
            forall|a: Seq<char>| #[trigger] final(self).load(a) == old(self).load(a),
            final(self).limit() == old(self).limit(),
            final(self).outbox().len() == old(self).outbox().len() + 1,
    {
        let id = owned(task.id.as_str());
        let copy = task.duplicate();
        let mut i: usize = 0;
        let mut found: Option<usize> = None;
        while i < self.tasks.len()
            invariant
                i <= self.tasks@.len(),
                found matches Some(k) ==> k < self.tasks@.len(),
            decreases self.tasks@.len() - i,
        {
            if found.is_none() && str_eq(self.tasks[i].id.as_str(), task.id.as_str()) {
                found = Some(i);
            }
            i += 1;
        }
        let ghost pos: int;
        match found {
            Some(k) => {
                self.tasks.set(k, task);
                proof {
                    pos = k as int;
                }
            },
            None => {
                self.tasks.push(task);
                proof {
                    pos = self.tasks@.len() - 1;
                }
            },
        }
        assert(self.tasks@[pos] == task);
        self.events.push(TaskEvent::Created(copy));
        assert(self.task_list()[pos] == task);
        id
    }

    /// The index of the task with the ID.
    fn find_task(&self, task_id: &str) -> (r: Option<usize>)
        ensures
            match r {
                Some(k) => first_task(self.tasks@, task_id@, k as int),
                None => forall|j: int| 0 <= j < self.tasks@.len() ==> #[trigger] self.tasks@[j].id@ != task_id@,
            },
    {
        let mut i: usize = 0;
        while i < self.tasks.len()
            invariant
                i <= self.tasks@.len(),
                forall|j: int| 0 <= j < i ==> #[trigger] self.tasks@[j].id@ != task_id@,
            decreases self.tasks@.len() - i,
        {
            if str_eq(self.tasks[i].id.as_str(), task_id) {
                return Some(i);
            }
            i += 1;
        }
        None
    }

    /// Whether the task has a task with the ID.
    pub open spec fn has_task(&self, task_id: Seq<char>) -> bool {
        exists|j: int| 0 <= j < self.task_list().len() && #[trigger] self.task_list()[j].id@ == task_id
    }

    /// The agent best suited for a task: among registered agents that have
    /// every required capability and room for another task, the least
    /// loaded, the first registered on ties.
    pub fn find_best_agent(&self, task: &CollaborativeTask) -> (r: Option<String>)
        ensures
            match r {
                Some(a) => exists|i: int|
                    0 <= i < self.agents().len() && #[trigger] self.agents()[i].0 == a@ && covers(
                        self.agents()[i].1,
                        string_views(task.required_capabilities@),
                    ) && self.load(a@) < self.limit() && forall|j: int|
                        0 <= j < self.agents().len() && covers(
                            self.agents()[j].1,
                            string_views(task.required_capabilities@),
                        ) && self.load(self.agents()[j].0) < self.limit() ==> self.load(a@)
                            <= self.load(#[trigger] self.agents()[j].0),
                None => forall|j: int|
                    0 <= j < self.agents().len() ==> !(covers(
                        #[trigger] self.agents()[j].1,
                        string_views(task.required_capabilities@),
                    ) && self.load(self.agents()[j].0) < self.limit()),
            },
    {
        let ghost req = string_views(task.required_capabilities@);
        let mut best: Option<usize> = None;
        let mut best_load: usize = 0;
        let mut i: usize = 0;
        while i < self.capabilities.len()
            invariant
                i <= self.capabilities@.len(),
                req == string_views(task.required_capabilities@),
                match best {
                    Some(b) => b < i && covers(self.agents()[b as int].1, req) && best_load == self.load(
                        self.agents()[b as int].0,
                    ) && best_load < self.limit() && forall|j: int|
                        0 <= j < i && covers(self.agents()[j].1, req) && self.load(self.agents()[j].0)
                            < self.limit() ==> best_load <= self.load(#[trigger] self.agents()[j].0),
                    None => forall|j: int|
                        0 <= j < i ==> !(covers(#[trigger] self.agents()[j].1, req) && self.load(
                            self.agents()[j].0,
                        ) < self.limit()),
                },
            decreases self.capabilities@.len() - i,
        {
            let entry = &self.capabilities[i];
            assert(self.agents()[i as int] == (entry.0@, string_views(entry.1@)));
            let mut all = true;
            let mut k: usize = 0;
            while k < task.required_capabilities.len()
                invariant
                    k <= task.required_capabilities@.len(),
                    req == string_views(task.required_capabilities@),
                    all == forall|m: int| 0 <= m < k ==> string_views(entry.1@).contains(#[trigger] req[m]),
                decreases task.required_capabilities@.len() - k,
            {
                assert(req[k as int] == task.required_capabilities@[k as int]@);
                if !contains_str(&entry.1, task.required_capabilities[k].as_str()) {
                    all = false;
                }
                k += 1;
            }
            if all {
                let load = self.get_workload(entry.0.as_str());
                if load < self.max_tasks_per_agent {
                    match best {
                        Some(_) => {
                            if load < best_load {
                                best = Some(i);
                                best_load = load;
                            }
                        },
                        None => {
                            best = Some(i);
                            best_load = load;
                        },
                    }
                }
            }
            i += 1;
        }
        match best {
            Some(b) => Some(owned(self.capabilities[b].0.as_str())),
            None => None,
        }
    }

    /// Sets a workload count.
    fn set_load(&mut self, agent_id: &str, n: usize)
        ensures
            final(self).load(agent_id@) == n,
            forall|a: Seq<char>| a != agent_id@ ==> #[trigger] final(self).load(a) == old(self).load(a),
            final(self).tasks == old(self).tasks,
            final(self).capabilities == old(self).capabilities,
            final(self).max_tasks_per_agent == old(self).max_tasks_per_agent,
            final(self).events == old(self).events,
    {
        proof {
            lemma_key_index(self.workload@, agent_id@);
        }
        let ghost w0 = self.workload@;
        match find_key(&self.workload, agent_id) {
            Some(i) => {
                let entry = (owned(agent_id), n);
                proof {
                    assert forall|a: Seq<char>| #[trigger] key_index(w0.update(i as int, entry), a)
                        == key_index(w0, a) by {
                        lemma_key_index_update(w0, i as int, entry, a);
                    }
                }
                self.workload.set(i, entry);
                proof {
                    assert forall|a: Seq<char>| a != agent_id@ implies #[trigger] load_of(self.workload@, a)
                        == load_of(w0, a) by {
                        lemma_key_index(w0, a);
                    }
                }
            },
            None => {
                self.workload.push((owned(agent_id), n));
                proof {
                    assert(self.workload@.drop_last() =~= w0);
                    lemma_key_index(w0, agent_id@);
                    assert forall|a: Seq<char>| a != agent_id@ implies #[trigger] load_of(self.workload@, a)
                        == load_of(w0, a) by {
                        lemma_key_index(w0, a);
                    }
                }
            },
        }
    }

    /// Assigns a task to an agent with room for it: the task is marked
    /// assigned at `now_ms`, the agent's workload grows by one, and an
    /// `Assigned` event goes to the outbox.
    pub fn assign_task_at(&mut self, task_id: &str, agent_id: &str, now_ms: i64) -> (r: Result<(), Error>)
        ensures
            !old(self).has_task(task_id@) ==> (r matches Err(Error::Agent(m)) && m@ == task_missing(task_id@)),
            old(self).has_task(task_id@) && old(self).load(agent_id@) >= old(self).limit() ==> (r matches Err(
                Error::Agent(m),
            ) && m@ == "Agent "@ + agent_id@ + " has reached maximum task limit"@),
            r is Err ==> forall|a: Seq<char>| #[trigger] final(self).load(a) == old(self).load(a),
            r is Ok <==> old(self).has_task(task_id@) && old(self).load(agent_id@) < old(self).limit(),
            r is Ok ==> {
                &&& final(self).load(agent_id@) == old(self).load(agent_id@) + 1
                &&& forall|a: Seq<char>| a != agent_id@ ==> #[trigger] final(self).load(a) == old(self).load(a)
                &&& final(self).task_list().len() == old(self).task_list().len()
                &&& exists|i: int|
                    0 <= i < final(self).task_list().len() && #[trigger] final(self).task_list()[i].id@
                        == task_id@ && final(self).task_list()[i].status == TaskStatus::Assigned
                        && opt_view(final(self).task_list()[i].assignee) == Some(agent_id@)
            },
            final(self).limit() == old(self).limit(),
            assign_outcome(*old(self), *final(self), task_id@, agent_id@, now_ms, r),
    {
        match self.find_task(task_id) {
            None => {
                assert(!old(self).has_task(task_id@)) by {
                    assert forall|j: int| 0 <= j < old(self).task_list().len() implies #[trigger] old(self).task_list()[j].id@ != task_id@ by {
                        assert(old(self).task_list()[j] == old(self).tasks@[j]);
                    }
                }
                let mut m = chars_of("Task ");
                extend_str(&mut m, task_id);
                extend_str(&mut m, " not found");
                Err(Error::Agent(string_from_chars(&m)))
            },
            Some(k) => {
                assert(self.task_list()[k as int].id@ == task_id@);
                let current = self.get_workload(agent_id);
                if current >= self.max_tasks_per_agent {
                    let mut m = chars_of("Agent ");
                    extend_str(&mut m, agent_id);
                    extend_str(&mut m, " has reached maximum task limit");
                    return Err(Error::Agent(string_from_chars(&m)));
                }
                let ghost pre = self.tasks@;
                let mut task = self.tasks.remove(k);
                task.assignee = Some(owned(agent_id));
                task.status = TaskStatus::Assigned;
                task.updated_at = now_ms;
                self.tasks.insert(k, task);
                proof {
                    assert(self.tasks@ =~= pre.update(k as int, task));
                }
                let ghost ev0 = self.events@;
                assert(self.task_list()[k as int].id@ == task_id@);
                assert(self.task_list()[k as int].status == TaskStatus::Assigned);
                self.events.push(
                    TaskEvent::Assigned { task_id: owned(task_id), agent_id: owned(agent_id) },
                );
                self.set_load(agent_id, current + 1);
                assert(self.task_list()[k as int].id@ == task_id@);
                assert(self.task_list()[k as int].status == TaskStatus::Assigned);
                assert(opt_view(self.task_list()[k as int].assignee) == Some(agent_id@));
                assert(self.task_list().len() == old(self).task_list().len());
                assert(self.load(agent_id@) == old(self).load(agent_id@) + 1);
                proof {
                    assert(self.events@.drop_last() =~= ev0);
                    assert(first_task(old(self).task_list(), task_id@, k as int));
                    assert(self.task_list() =~= old(self).task_list().update(k as int, self.task_list()[k as int]));
                }
                Ok(())
            },
        }
    }

    /// Assigns a task now; see `assign_task_at`.
    pub fn assign_task(&mut self, task_id: &str, agent_id: &str) -> (r: Result<(), Error>)
        ensures
            r is Ok <==> old(self).has_task(task_id@) && old(self).load(agent_id@) < old(self).limit(),
            r is Ok ==> final(self).load(agent_id@) == old(self).load(agent_id@) + 1,
            exists|now: i64| crate::clock::in_clock_range(now as int) && #[trigger] assign_outcome(*old(self), *final(self), task_id@, agent_id@, now, r),
    {
        let now = crate::clock::now_millis();
        let r = self.assign_task_at(task_id, agent_id, now);
        assert(assign_outcome(*old(self), *self, task_id@, agent_id@, now, r));
        r
    }

    /// Reports progress on a task at `now_ms`: capped at 100, the task is in
    /// progress, and a `Progress` event with the reported value goes to the
    /// outbox.
    pub fn update_progress_at(&mut self, task_id: &str, progress: u8, now_ms: i64) -> (r: Result<
        (),
        Error,
    >)
        ensures
            !old(self).has_task(task_id@) ==> (r matches Err(Error::Agent(m)) && m@ == task_missing(task_id@)),
            r is Ok <==> old(self).has_task(task_id@),
            r is Ok ==> exists|i: int|
                0 <= i < final(self).task_list().len() && #[trigger] final(self).task_list()[i].id@
                    == task_id@ && final(self).task_list()[i].status == TaskStatus::InProgress
                    && final(self).task_list()[i].progress == if progress < 100 {
                    progress
                } else {
                    100
                },
            forall|a: Seq<char>| #[trigger] final(self).load(a) == old(self).load(a),
            progress_outcome(*old(self), *final(self), task_id@, progress, now_ms, r),
    {
        match self.find_task(task_id) {
            None => {
                assert(!old(self).has_task(task_id@)) by {
                    assert forall|j: int| 0 <= j < old(self).task_list().len() implies #[trigger] old(self).task_list()[j].id@ != task_id@ by {
                        assert(old(self).task_list()[j] == old(self).tasks@[j]);
                    }
                }
                let mut m = chars_of("Task ");
                extend_str(&mut m, task_id);
                extend_str(&mut m, " not found");
                Err(Error::Agent(string_from_chars(&m)))
            },
            Some(k) => {
                let ghost pre = self.tasks@;
                let mut task = self.tasks.remove(k);
                task.progress = if progress < 100 {
                    progress
                } else {
                    100
                };
                task.status = TaskStatus::InProgress;
                task.updated_at = now_ms;
                self.tasks.insert(k, task);
                proof {
                    assert(self.tasks@ =~= pre.update(k as int, task));
                }
                let ghost ev0 = self.events@;
                assert(self.task_list()[k as int].id@ == task_id@);
                self.events.push(TaskEvent::Progress { task_id: owned(task_id), progress });
                assert(self.task_list()[k as int].id@ == task_id@);
                proof {
                    assert(self.events@.drop_last() =~= ev0);
                    assert(first_task(old(self).task_list(), task_id@, k as int));
                    assert(self.task_list() =~= old(self).task_list().update(k as int, self.task_list()[k as int]));
                }
                Ok(())
            },
        }
    }

    /// Reports progress now; see `update_progress_at`.
    pub fn update_progress(&mut self, task_id: &str, progress: u8) -> (r: Result<(), Error>)
        ensures
            r is Ok <==> old(self).has_task(task_id@),
            exists|now: i64| crate::clock::in_clock_range(now as int) && #[trigger] progress_outcome(*old(self), *final(self), task_id@, progress, now, r),
    {
        let now = crate::clock::now_millis();
        let r = self.update_progress_at(task_id, progress, now);
        assert(progress_outcome(*old(self), *self, task_id@, progress, now, r));
        r
    }

    /// Takes one task off its assignee's workload, if both are known.
    fn release(&mut self, k: usize)
        requires
            k < old(self).tasks@.len(),
        ensures
            final(self).tasks == old(self).tasks,
            final(self).events == old(self).events,
            final(self).max_tasks_per_agent == old(self).max_tasks_per_agent,
            match old(self).tasks@[k as int].assignee {
                Some(a) => final(self).load(a@) == if old(self).load(a@) > 0 {
                    old(self).load(a@) - 1
                } else {
                    0
                } && forall|b: Seq<char>| b != a@ ==> #[trigger] final(self).load(b) == old(self).load(b),
                None => forall|b: Seq<char>| #[trigger] final(self).load(b) == old(self).load(b),
            },
    {
        match &self.tasks[k].assignee {
            Some(a) => {
                let agent = owned(a.as_str());
                proof {
                    lemma_key_index(self.workload@, agent@);
                }
                match find_key(&self.workload, agent.as_str()) {
                    Some(i) => {
                        let w = self.workload[i].1;
                        let n = if w > 0 {
                            w - 1
                        } else {
                            0
                        };
                        self.set_load(agent.as_str(), n);
                    },
                    None => {},
                }
            },
            None => {},
        }
    }

    /// Completes a task at `now_ms`: its assignee's workload shrinks by one,
    /// the task is completed with full progress and the output, and a
    /// `Completed` event goes to the outbox.
    pub fn complete_task_at(&mut self, task_id: &str, output: serde_json::Value, now_ms: i64) -> (r:
        Result<(), Error>)
        ensures
            !old(self).has_task(task_id@) ==> (r matches Err(Error::Agent(m)) && m@ == task_missing(task_id@)),
            r is Ok <==> old(self).has_task(task_id@),
            r is Ok ==> exists|i: int|
                0 <= i < final(self).task_list().len() && #[trigger] final(self).task_list()[i].id@
                    == task_id@ && final(self).task_list()[i].status == TaskStatus::Completed
                    && final(self).task_list()[i].progress == 100 && final(self).task_list()[i].output
                    == Some(output),
            complete_outcome(*old(self), *final(self), task_id@, output, now_ms, r),
    {
        match self.find_task(task_id) {
            None => {
                assert(!old(self).has_task(task_id@)) by {
                    assert forall|j: int| 0 <= j < old(self).task_list().len() implies #[trigger] old(self).task_list()[j].id@ != task_id@ by {
                        assert(old(self).task_list()[j] == old(self).tasks@[j]);
                    }
                }
                let mut m = chars_of("Task ");
                extend_str(&mut m, task_id);
                extend_str(&mut m, " not found");
                Err(Error::Agent(string_from_chars(&m)))
            },
            Some(k) => {
                let ghost w0 = self.workload@;
                self.release(k);
                let ghost w1 = self.workload@;
                let ghost mid = *self;
                assert(released(*old(self), *self, old(self).task_list()[k as int])) by {
                    assert(old(self).task_list()[k as int] == old(self).tasks@[k as int]);
                }
                let copy = crate::json::clone_value(&output);
                let ghost pre = self.tasks@;
                let mut task = self.tasks.remove(k);
                task.status = TaskStatus::Completed;
                task.progress = 100;
                task.output = Some(output);
                task.updated_at = now_ms;
                self.tasks.insert(k, task);
                proof {
                    assert(self.tasks@ =~= pre.update(k as int, task));
                }
                let ghost ev0 = self.events@;
                assert(self.task_list()[k as int].id@ == task_id@);
                self.events.push(TaskEvent::Completed { task_id: owned(task_id), output: copy });
                assert(self.task_list()[k as int].id@ == task_id@);
                proof {
                    assert(self.events@.drop_last() =~= ev0);
                    assert(first_task(old(self).task_list(), task_id@, k as int));
                    assert(self.workload@ == w1);
                    assert forall|b: Seq<char>| #[trigger] self.load(b) == mid.load(b) by {
                        assert(self.workload@ == mid.workload@);
                    }
                    lemma_released_same_loads(*old(self), mid, *self, old(self).task_list()[k as int]);
                    assert(self.task_list() =~= old(self).task_list().update(k as int, self.task_list()[k as int]));
                    assert(task_changed(*old(self), *self, k as int));
                    assert(self.task_list()[k as int] == (CollaborativeTask {
                        status: TaskStatus::Completed,
                        progress: 100,
                        output: Some(output),
                        updated_at: now_ms,
                        ..old(self).task_list()[k as int]
                    }));
                    assert(released(*old(self), *self, old(self).task_list()[k as int]));
                }
                Ok(())
            },
        }
    }

    /// Completes a task now; see `complete_task_at`.
    pub fn complete_task(&mut self, task_id: &str, output: serde_json::Value) -> (r: Result<(), Error>)
        ensures
            r is Ok <==> old(self).has_task(task_id@),
            exists|now: i64| crate::clock::in_clock_range(now as int) && #[trigger] complete_outcome(*old(self), *final(self), task_id@, output, now, r),
    {
        let now = crate::clock::now_millis();
        let ghost out = output;
        let r = self.complete_task_at(task_id, output, now);
        assert(complete_outcome(*old(self), *self, task_id@, out, now, r));
        r
    }

    /// Fails a task at `now_ms`: its assignee's workload shrinks by one, the
    /// task is failed with the error, and a `Failed` event goes to the
    /// outbox.
    pub fn fail_task_at(&mut self, task_id: &str, error: &str, now_ms: i64) -> (r: Result<(), Error>)
        ensures
            !old(self).has_task(task_id@) ==> (r matches Err(Error::Agent(m)) && m@ == task_missing(task_id@)),
            r is Ok <==> old(self).has_task(task_id@),
            r is Ok ==> exists|i: int|
                0 <= i < final(self).task_list().len() && #[trigger] final(self).task_list()[i].id@
                    == task_id@ && final(self).task_list()[i].status == TaskStatus::Failed
                    && opt_view(final(self).task_list()[i].error) == Some(error@),
            fail_outcome(*old(self), *final(self), task_id@, error@, now_ms, r),
    {
        match self.find_task(task_id) {
            None => {
                assert(!old(self).has_task(task_id@)) by {
                    assert forall|j: int| 0 <= j < old(self).task_list().len() implies #[trigger] old(self).task_list()[j].id@ != task_id@ by {
                        assert(old(self).task_list()[j] == old(self).tasks@[j]);
                    }
                }
                let mut m = chars_of("Task ");
                extend_str(&mut m, task_id);
                extend_str(&mut m, " not found");
                Err(Error::Agent(string_from_chars(&m)))
            },
            Some(k) => {
                let ghost w0 = self.workload@;
                self.release(k);
                let ghost w1 = self.workload@;
                let ghost mid = *self;
                assert(released(*old(self), *self, old(self).task_list()[k as int])) by {
                    assert(old(self).task_list()[k as int] == old(self).tasks@[k as int]);
                }
                let ghost pre = self.tasks@;
                let mut task = self.tasks.remove(k);
                task.status = TaskStatus::Failed;
                task.error = Some(owned(error));
                task.updated_at = now_ms;
                self.tasks.insert(k, task);
                proof {
                    assert(self.tasks@ =~= pre.update(k as int, task));
                }
                let ghost ev0 = self.events@;
                assert(self.task_list()[k as int].id@ == task_id@);
                self.events.push(TaskEvent::Failed { task_id: owned(task_id), error: owned(error) });
                assert(self.task_list()[k as int].id@ == task_id@);
                proof {
                    assert(self.events@.drop_last() =~= ev0);
                    assert(first_task(old(self).task_list(), task_id@, k as int));
                    assert(self.workload@ == w1);
                    assert forall|b: Seq<char>| #[trigger] self.load(b) == mid.load(b) by {
                        assert(self.workload@ == mid.workload@);
                    }
                    lemma_released_same_loads(*old(self), mid, *self, old(self).task_list()[k as int]);
                    assert(self.task_list() =~= old(self).task_list().update(k as int, self.task_list()[k as int]));
                }
                Ok(())
            },
        }
    }

    /// Fails a task now; see `fail_task_at`.
    pub fn fail_task(&mut self, task_id: &str, error: &str) -> (r: Result<(), Error>)
        ensures
            r is Ok <==> old(self).has_task(task_id@),
            exists|now: i64| crate::clock::in_clock_range(now as int) && #[trigger] fail_outcome(*old(self), *final(self), task_id@, error@, now, r),
    {
        let now = crate::clock::now_millis();
        let r = self.fail_task_at(task_id, error, now);
        assert(fail_outcome(*old(self), *self, task_id@, error@, now, r));
        r
    }

    /// The task with the ID.
    pub fn get_task(&self, task_id: &str) -> (r: Option<&CollaborativeTask>)
        ensures
            match r {
                Some(t) => t.id@ == task_id@ && self.task_list().contains(*t),
                None => !self.has_task(task_id@),
            },
    {
        match self.find_task(task_id) {
            Some(k) => {
                assert(self.task_list()[k as int] == self.tasks@[k as int]);
                assert(self.task_list().contains(self.task_list()[k as int]));
                Some(&self.tasks[k])
            },
            None => {
                assert forall|j: int| 0 <= j < self.task_list().len() implies #[trigger] self.task_list()[j].id@
                    != task_id@ by {
                    assert(self.task_list()[j] == self.tasks@[j]);
                }
                None
            },
        }
    }

    /// The tasks with the status, or all.
    pub fn list_tasks(&self, status_filter: Option<TaskStatus>) -> (r: Vec<&CollaborativeTask>)
        ensures
            r@.map_values(|x: &CollaborativeTask| *x) == self.task_list().filter(
                |x: CollaborativeTask|
                    match status_filter {
                        Some(s) => x.status == s,
                        None => true,
                    },
            ),
            r@.len() <= self.task_list().len(),
            forall|j: int| 0 <= j < r@.len() ==> self.task_list().contains(*#[trigger] r@[j]),
            forall|j: int|
                0 <= j < r@.len() ==> (status_filter matches Some(s) ==> #[trigger] r@[j].status == s),
            status_filter is None ==> r@.len() == self.task_list().len(),
    {
        let mut out: Vec<&CollaborativeTask> = Vec::new();
        let ghost xs = self.tasks@;
        let mut i: usize = 0;
        while i < self.tasks.len()
            invariant
                i <= self.tasks@.len(),
                xs == self.tasks@,
                xs == self.task_list(),
                out@.map_values(|x: &CollaborativeTask| *x) == xs.take(i as int).filter(
                    |x: CollaborativeTask|
                        match status_filter {
                            Some(s) => x.status == s,
                            None => true,
                        },
                ),
                out@.len() <= i,
                status_filter is None ==> out@.len() == i,
                forall|j: int| 0 <= j < out@.len() ==> self.tasks@.contains(*#[trigger] out@[j]),
                forall|j: int|
                    0 <= j < out@.len() ==> (status_filter matches Some(s) ==> #[trigger] out@[j].status
                        == s),
            decreases self.tasks@.len() - i,
        {
            let t = &self.tasks[i];
            let keep = match status_filter {
                Some(s) => t.status == s,
                None => true,
            };
            let ghost o = out@;
            assert(xs.take(i + 1) =~= xs.take(i as int).push(xs[i as int]));
            if keep {
                out.push(t);
                assert(self.tasks@.contains(self.tasks@[i as int]));
                assert(out@.map_values(|x: &CollaborativeTask| *x) =~= o.map_values(|x: &CollaborativeTask| *x).push(xs[i as int]));
            }
            proof {
                xs.take(i as int).lemma_filter_push(
                    xs[i as int],
                    |x: CollaborativeTask|
                        match status_filter {
                            Some(s) => x.status == s,
                            None => true,
                        },
                );
            }
            i += 1;
        }
        assert(xs.take(xs.len() as int) =~= xs);
        out
    }

    /// Takes the events out of the outbox.
    pub fn take_events(&mut self) -> (r: Vec<TaskEvent>)
        ensures
            r@ == old(self).outbox(),
            final(self).outbox().len() == 0,
            final(self).task_list() == old(self).task_list(),
            forall|a: Seq<char>| #[trigger] final(self).load(a) == old(self).load(a),
    {
        let mut out: Vec<TaskEvent> = Vec::new();
        std::mem::swap(&mut out, &mut self.events);
        out
    }
}

impl Default for TaskDelegator {
    fn default() -> (r: TaskDelegator)
        ensures
            r.limit() == 5,
            r.task_list().len() == 0,
    {
        TaskDelegator::new()
    }
}

impl Default for SharedMemory {
    fn default() -> (r: SharedMemory)
        ensures
            r.wf(),
            r.history_limit() == 1000,
    {
        SharedMemory::new()
    }
}

} // verus!
