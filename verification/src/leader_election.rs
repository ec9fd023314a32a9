//! Leader election for high availability.
//!
//! A Raft-inspired protocol decides which control-plane instance is active.
//! Each node is a follower, a candidate or the leader of a numbered term; it
//! grants at most one vote per term, and a candidate that collects votes from
//! a majority of the cluster (its peers and itself) becomes the leader.
//!
//! The manager here holds the election state, the known peers and an outbox of
//! election events; timers are represented by flags and the chosen timeout,
//! and whoever drives the manager sleeps and calls back into it.

use crate::platform;
use vstd::prelude::*;

verus! {

/// Identifier of a control-plane node taking part in the election.
pub type NodeId = u128;

/// Term number of the election.
pub type Term = u64;

/// Configuration of leader election.
#[derive(Debug, Clone, Copy)]
pub struct LeaderElectionConfig {
    /// Identifier of this control-plane instance.
    pub node_id: NodeId,
    /// Range of the election timeout in milliseconds, `(min, max)`.
    pub election_timeout_range: (u64, u64),
    /// Interval between heartbeats of a leader in milliseconds.
    pub heartbeat_interval: u64,
    /// Largest number of nodes in the cluster.
    pub max_nodes: u32,
    /// Smallest number of nodes that forms a quorum.
    pub min_quorum: u32,
}

impl LeaderElectionConfig {
    /// The default configuration: a fresh node identifier, timeouts between
    /// 150 and 300 ms, a 50 ms heartbeat, five nodes and a quorum of three.
    pub fn default_config() -> (config: LeaderElectionConfig)
        ensures
            config.node_id != 0,
            config.election_timeout_range == (150u64, 300u64),
            config.heartbeat_interval == 50,
            config.max_nodes == 5,
            config.min_quorum == 3,
    {
        LeaderElectionConfig {
            node_id: platform::new_identifier(),
            election_timeout_range: (150, 300),
            heartbeat_interval: 50,
            max_nodes: 5,
            min_quorum: 3,
        }
    }
}

/// Role of a node in the election.
#[derive(Debug, Clone, Copy, PartialEq, Eq, Structural)]
pub enum NodeState {
    /// Follows the current leader.
    Follower,
    /// Seeks votes to become leader.
    Candidate,
    /// Is the elected leader.
    Leader,
    /// Takes no part in elections.
    Offline,
}

/// Events that the election produces.
#[derive(Debug, Clone, Copy, PartialEq, Eq, Structural)]
pub enum LeaderElectionEvent {
    /// This node started an election.
    ElectionStarted { node_id: NodeId, term: Term, timestamp: u64 },
    /// This node voted for a candidate.
    VoteCast { voter_id: NodeId, candidate_id: NodeId, term: Term, timestamp: u64 },
    /// This node became the leader.
    LeaderElected { leader_id: NodeId, term: Term, votes_received: u32, timestamp: u64 },
    /// A leader was lost.
    LeaderLost { leader_id: NodeId, term: Term, timestamp: u64 },
    /// The role of this node changed.
    NodeStateChanged {
        node_id: NodeId,
        old_state: NodeState,
        new_state: NodeState,
        term: Term,
        timestamp: u64,
    },
    /// A heartbeat of the leader arrived.
    HeartbeatReceived { leader_id: NodeId, term: Term, timestamp: u64 },
}

impl LeaderElectionEvent {
    /// The dotted name under which the event is published.
    pub fn event_type(&self) -> (name: &'static str)
        ensures
            name@ == match *self {
                LeaderElectionEvent::ElectionStarted { .. } => "leader_election.election_started"@,
                LeaderElectionEvent::VoteCast { .. } => "leader_election.vote_cast"@,
                LeaderElectionEvent::LeaderElected { .. } => "leader_election.leader_elected"@,
                LeaderElectionEvent::LeaderLost { .. } => "leader_election.leader_lost"@,
                LeaderElectionEvent::NodeStateChanged { .. } => "leader_election.node_state_changed"@,
                LeaderElectionEvent::HeartbeatReceived { .. } => "leader_election.heartbeat_received"@,
            },
    {
        match self {
            LeaderElectionEvent::ElectionStarted { .. } => "leader_election.election_started",
            LeaderElectionEvent::VoteCast { .. } => "leader_election.vote_cast",
            LeaderElectionEvent::LeaderElected { .. } => "leader_election.leader_elected",
            LeaderElectionEvent::LeaderLost { .. } => "leader_election.leader_lost",
            LeaderElectionEvent::NodeStateChanged { .. } => "leader_election.node_state_changed",
            LeaderElectionEvent::HeartbeatReceived { .. } => "leader_election.heartbeat_received",
        }
    }

    /// The node the event is about.
    pub fn aggregate_id(&self) -> (id: NodeId)
        ensures
            id == self.spec_aggregate_id(),
    {
        match self {
            LeaderElectionEvent::ElectionStarted { node_id, .. } => *node_id,
            LeaderElectionEvent::VoteCast { voter_id, .. } => *voter_id,
            LeaderElectionEvent::LeaderElected { leader_id, .. } => *leader_id,
            LeaderElectionEvent::LeaderLost { leader_id, .. } => *leader_id,
            LeaderElectionEvent::NodeStateChanged { node_id, .. } => *node_id,
            LeaderElectionEvent::HeartbeatReceived { leader_id, .. } => *leader_id,
        }
    }

    /// The node the event is about.
    pub open spec fn spec_aggregate_id(&self) -> NodeId {
        match *self {
            LeaderElectionEvent::ElectionStarted { node_id, .. } => node_id,
            LeaderElectionEvent::VoteCast { voter_id, .. } => voter_id,
            LeaderElectionEvent::LeaderElected { leader_id, .. } => leader_id,
            LeaderElectionEvent::LeaderLost { leader_id, .. } => leader_id,
            LeaderElectionEvent::NodeStateChanged { node_id, .. } => node_id,
            LeaderElectionEvent::HeartbeatReceived { leader_id, .. } => leader_id,
        }
    }

    /// When the event occurred, in milliseconds since the epoch.
    pub fn occurred_at(&self) -> (ts: u64)
        ensures
            ts == match *self {
                LeaderElectionEvent::ElectionStarted { timestamp, .. } => timestamp,
                LeaderElectionEvent::VoteCast { timestamp, .. } => timestamp,
                LeaderElectionEvent::LeaderElected { timestamp, .. } => timestamp,
                LeaderElectionEvent::LeaderLost { timestamp, .. } => timestamp,
                LeaderElectionEvent::NodeStateChanged { timestamp, .. } => timestamp,
                LeaderElectionEvent::HeartbeatReceived { timestamp, .. } => timestamp,
            },
    {
        match self {
            LeaderElectionEvent::ElectionStarted { timestamp, .. } => *timestamp,
            LeaderElectionEvent::VoteCast { timestamp, .. } => *timestamp,
            LeaderElectionEvent::LeaderElected { timestamp, .. } => *timestamp,
            LeaderElectionEvent::LeaderLost { timestamp, .. } => *timestamp,
            LeaderElectionEvent::NodeStateChanged { timestamp, .. } => *timestamp,
            LeaderElectionEvent::HeartbeatReceived { timestamp, .. } => *timestamp,
        }
    }

    /// Events are correlated by the node they are about.
    pub fn correlation_id(&self) -> (id: NodeId)
        ensures
            id == self.spec_aggregate_id(),
    {
        self.aggregate_id()
    }
}

/// A peer node of the cluster.
#[derive(Debug, Clone)]
pub struct PeerNode {
    /// Identifier of the peer.
    pub id: NodeId,
    /// Address at which the peer is reached.
    pub address: String,
    /// Last known role of the peer.
    pub state: NodeState,
    /// Last known term of the peer.
    pub term: Term,
    /// When the peer was last heard from, in milliseconds since the epoch.
    pub last_heartbeat: u64,
    /// Whether the peer voted for this node in the current term.
    pub voted_for_us: bool,
}

/// The election state of one node.
#[derive(Debug, Clone, Copy, PartialEq, Eq, Structural)]
pub struct ElectionState {
    /// Current term.
    pub current_term: Term,
    /// Candidate voted for in the current term.
    pub voted_for: Option<NodeId>,
    /// Current role.
    pub state: NodeState,
    /// Leader of the current term, where known.
    pub current_leader: Option<NodeId>,
    /// Votes collected in the current election.
    pub votes_received: u32,
    /// When the leader was last heard from.
    pub last_heartbeat: u64,
    /// When the next election is due.
    pub election_timeout: u64,
}

/// The state after a vote request `(candidate, term)`, and whether the vote
/// is granted.  A request of an older term is refused and changes nothing; a
/// newer term is adopted first, which forgets the vote and the leader and
/// makes the node a follower; the vote is granted when the node has not voted
/// in the term or voted for the same candidate.
pub open spec fn vote_step(s: ElectionState, candidate: NodeId, term: Term) -> (ElectionState, bool) {
    if term < s.current_term {
        (s, false)
    } else {
        let s1 = if term > s.current_term {
            ElectionState {
                current_term: term,
                voted_for: None,
                state: NodeState::Follower,
                current_leader: None,
                ..s
            }
        } else {
            s
        };
        let grant = s1.voted_for is None || s1.voted_for == Some(candidate);
        if grant {
            (ElectionState { voted_for: Some(candidate), ..s1 }, true)
        } else {
            (s1, false)
        }
    }
}

/// The state after a heartbeat of `leader` in `term` at time `now`.  A
/// heartbeat of an older term is ignored.  Otherwise the term and leader are
/// adopted, the heartbeat time is recorded, the next election is pushed back
/// by `timeout` milliseconds, and a candidate steps down to follower and
/// forgets its vote.
pub open spec fn heartbeat_step(
    s: ElectionState,
    leader: NodeId,
    term: Term,
    now: u64,
    timeout: u64,
) -> ElectionState {
    if term >= s.current_term {
        let s1 = ElectionState {
            current_term: term,
            current_leader: Some(leader),
            last_heartbeat: now,
            election_timeout: (now + timeout) as u64,
            ..s
        };
        if s.state == NodeState::Candidate {
            ElectionState { state: NodeState::Follower, voted_for: None, ..s1 }
        } else {
            s1
        }
    } else {
        s
    }
}

/// The state after this node `me` starts an election at time `now`: the next
/// term, a vote for itself, candidacy, no known leader and one vote.
pub open spec fn election_start_step(s: ElectionState, me: NodeId, now: u64) -> ElectionState {
    ElectionState {
        current_term: (s.current_term + 1) as u64,
        voted_for: Some(me),
        state: NodeState::Candidate,
        current_leader: None,
        votes_received: 1,
        last_heartbeat: now,
        ..s
    }
}

/// Number of votes that is a majority of a cluster of `peers` peers and this
/// node.
pub open spec fn majority(peers: nat) -> nat {
    (peers + 1) / 2 + 1
}

/// The state after a vote response for `term` among `peers` peers, and
/// whether this node has just won the election.  Only a candidate in the
/// same term counts the response; a granted vote adds one vote, and a count
/// that reaches a majority makes the node `me` the leader.
pub open spec fn vote_response_step(
    s: ElectionState,
    me: NodeId,
    peers: nat,
    term: Term,
    granted: bool,
) -> (ElectionState, bool) {
    if s.state != NodeState::Candidate || term != s.current_term || !granted {
        (s, false)
    } else {
        let s1 = ElectionState { votes_received: (s.votes_received + 1) as u32, ..s };
        if s1.votes_received >= majority(peers) {
            (ElectionState { state: NodeState::Leader, current_leader: Some(me), ..s1 }, true)
        } else {
            (s1, false)
        }
    }
}

/// The state after stepping down to follower in `term`: a newer term is
/// adopted and its vote forgotten; the node follows nobody yet and holds no
/// votes.
pub open spec fn follower_step(s: ElectionState, term: Term) -> ElectionState {
    let s1 = if term > s.current_term {
        ElectionState { current_term: term, voted_for: None, ..s }
    } else {
        s
    };
    ElectionState {
        state: NodeState::Follower,
        current_leader: None,
        votes_received: 0,
        ..s1
    }
}

/// Leader election manager of one control-plane node.
pub struct LeaderElectionManager {
    config: LeaderElectionConfig,
    state: ElectionState,
    peers: Vec<PeerNode>,
    events: Vec<LeaderElectionEvent>,
    election_timer: Option<u64>,
    heartbeat_timer: bool,
}

/// Whether no two peers share an identifier.
pub open spec fn unique_peer_ids(peers: Seq<PeerNode>) -> bool {
    forall|i: int, j: int| 0 <= i < j < peers.len() ==> peers[i].id != peers[j].id
}

/// Position of the peer with identifier `id`, where there is one.
pub open spec fn peer_position(peers: Seq<PeerNode>, id: NodeId) -> int {
    choose|i: int| 0 <= i < peers.len() && peers[i].id == id
}

/// Whether a peer with identifier `id` is known.
pub open spec fn has_peer(peers: Seq<PeerNode>, id: NodeId) -> bool {
    exists|i: int| 0 <= i < peers.len() && peers[i].id == id
}

impl LeaderElectionManager {
    /// The election state.
    pub closed spec fn election(&self) -> ElectionState {
        self.state
    }

    /// The known peers, in the order they were added.
    pub closed spec fn peer_list(&self) -> Seq<PeerNode> {
        self.peers@
    }

    /// The events produced and not yet drained, oldest first.
    pub closed spec fn pending_events(&self) -> Seq<LeaderElectionEvent> {
        self.events@
    }

    /// Identifier of this node.
    pub closed spec fn me(&self) -> NodeId {
        self.config.node_id
    }

    /// Longest election timeout of the configuration.
    pub closed spec fn max_timeout(&self) -> u64 {
        self.config.election_timeout_range.1
    }

    /// Shortest election timeout of the configuration.
    pub closed spec fn min_timeout(&self) -> u64 {
        self.config.election_timeout_range.0
    }

    /// The timeout of the running election timer, if one runs.
    pub closed spec fn election_timer_spec(&self) -> Option<u64> {
        self.election_timer
    }

    /// Whether the heartbeat timer of a leader runs.
    pub closed spec fn heartbeat_timer_spec(&self) -> bool {
        self.heartbeat_timer
    }

    /// Internal consistency: peers are known by distinct identifiers.
    pub closed spec fn well_formed(&self) -> bool {
        unique_peer_ids(self.peers@)
    }

    /// A new manager: a follower of term 0 with no vote, no leader and no
    /// peers, whose first election is due `max` milliseconds after `now`.
    pub fn new_at(config: LeaderElectionConfig, now: u64) -> (m: Self)
        requires
            now + config.election_timeout_range.1 <= u64::MAX,
        ensures
            m.well_formed(),
            m.me() == config.node_id,
            m.max_timeout() == config.election_timeout_range.1,
            m.election() == (ElectionState {
                current_term: 0,
                voted_for: None,
                state: NodeState::Follower,
                current_leader: None,
                votes_received: 0,
                last_heartbeat: now,
                election_timeout: (now + config.election_timeout_range.1) as u64,
            }),
            m.peer_list() == Seq::<PeerNode>::empty(),
            m.pending_events() == Seq::<LeaderElectionEvent>::empty(),
            m.election_timer_spec() is None,
            !m.heartbeat_timer_spec(),
    {
        let timeout = config.election_timeout_range.1;
        LeaderElectionManager {
            config,
            state: ElectionState {
                current_term: 0,
                voted_for: None,
                state: NodeState::Follower,
                current_leader: None,
                votes_received: 0,
                last_heartbeat: now,
                election_timeout: now + timeout,
            },
            peers: Vec::new(),
            events: Vec::new(),
            election_timer: None,
            heartbeat_timer: false,
        }
    }

    /// A new manager, started at the current time.
    pub fn new(config: LeaderElectionConfig) -> (m: Self)
        requires
            config.election_timeout_range.1 <= u64::MAX / 2,
        ensures
            m.well_formed(),
            m.me() == config.node_id,
            m.election().current_term == 0,
            m.election().voted_for is None,
            m.election().state == NodeState::Follower,
            m.election().current_leader is None,
            m.election().votes_received == 0,
            m.max_timeout() == config.election_timeout_range.1,
            m.peer_list() == Seq::<PeerNode>::empty(),
            m.pending_events() == Seq::<LeaderElectionEvent>::empty(),
    {
        let now = platform::now_millis();
        let now = if now > u64::MAX / 2 { u64::MAX / 2 } else { now };
        Self::new_at(config, now)
    }

    /// Identifier of this node.
    pub fn node_id(&self) -> (id: NodeId)
        ensures
            id == self.me(),
    {
        self.config.node_id
    }

    /// The current leader, where known.
    pub fn get_current_leader(&self) -> (leader: Option<NodeId>)
        ensures
            leader == self.election().current_leader,
    {
        self.state.current_leader
    }

    /// Whether this node is the leader.
    pub fn is_leader(&self) -> (b: bool)
        ensures
            b == (self.election().state == NodeState::Leader),
    {
        self.state.state == NodeState::Leader
    }

    /// The role of this node.
    pub fn get_state(&self) -> (s: NodeState)
        ensures
            s == self.election().state,
    {
        self.state.state
    }

    /// The current term.
    pub fn get_current_term(&self) -> (t: Term)
        ensures
            t == self.election().current_term,
    {
        self.state.current_term
    }

    /// The votes collected in the current election.
    pub fn votes_received(&self) -> (v: u32)
        ensures
            v == self.election().votes_received,
    {
        self.state.votes_received
    }

    /// A copy of the election state.
    pub fn election_state(&self) -> (s: ElectionState)
        ensures
            s == self.election(),
    {
        self.state
    }

    /// The number of known peers.
    pub fn peer_count(&self) -> (n: usize)
        ensures
            n == self.peer_list().len(),
    {
        self.peers.len()
    }

    /// Position of the peer with identifier `id`, if it is known.
    fn find_peer(&self, id: NodeId) -> (pos: Option<usize>)
        ensures
            match pos {
                Some(i) => i < self.peers@.len() && self.peers@[i as int].id == id,
                None => !has_peer(self.peers@, id),
            },
    {
        let mut i: usize = 0;
        while i < self.peers.len()
            invariant
                i <= self.peers@.len(),
                forall|k: int| 0 <= k < i ==> self.peers@[k].id != id,
            decreases self.peers@.len() - i,
        {
            if self.peers[i].id == id {
                return Some(i);
            }
            i = i + 1;
        }
        None
    }

    /// Adds a peer, replacing a known peer of the same identifier.
    pub fn add_peer(&mut self, peer: PeerNode)
        requires
            old(self).well_formed(),
        ensures
            final(self).well_formed(),
            has_peer(old(self).peer_list(), peer.id) ==> final(self).peer_list()
                == old(self).peer_list().update(peer_position(old(self).peer_list(), peer.id), peer),
            !has_peer(old(self).peer_list(), peer.id) ==> final(self).peer_list()
                == old(self).peer_list().push(peer),
            final(self).election() == old(self).election(),
            final(self).pending_events() == old(self).pending_events(),
            final(self).me() == old(self).me(),
            final(self).max_timeout() == old(self).max_timeout(),
            final(self).election_timer_spec() == old(self).election_timer_spec(),
            final(self).heartbeat_timer_spec() == old(self).heartbeat_timer_spec(),
    {
        match self.find_peer(peer.id) {
            Some(i) => {
                proof {
                    let ghost p = peer_position(self.peers@, peer.id);
                    assert(self.peers@[p].id == peer.id);
                    if p != i as int {
                        if p < i as int {
                            assert(self.peers@[p].id != self.peers@[i as int].id);
                        } else {
                            assert(self.peers@[i as int].id != self.peers@[p].id);
                        }
                    }
                }
                self.peers.set(i, peer);
            },
            None => {
                self.peers.push(peer);
            },
        }
    }

    /// Removes the peer with identifier `peer_id`, if it is known.
    pub fn remove_peer(&mut self, peer_id: NodeId)
        requires
            old(self).well_formed(),
        ensures
            final(self).well_formed(),
            has_peer(old(self).peer_list(), peer_id) ==> final(self).peer_list()
                == old(self).peer_list().remove(peer_position(old(self).peer_list(), peer_id)),
            !has_peer(old(self).peer_list(), peer_id) ==> final(self).peer_list()
                == old(self).peer_list(),
            !has_peer(final(self).peer_list(), peer_id),
            final(self).election() == old(self).election(),
            final(self).pending_events() == old(self).pending_events(),
            final(self).me() == old(self).me(),
            final(self).max_timeout() == old(self).max_timeout(),
            final(self).election_timer_spec() == old(self).election_timer_spec(),
            final(self).heartbeat_timer_spec() == old(self).heartbeat_timer_spec(),
    {
        match self.find_peer(peer_id) {
            Some(i) => {
                proof {
                    let ghost p = peer_position(self.peers@, peer_id);
                    if p != i as int {
                        if p < i as int {
                            assert(self.peers@[p].id != self.peers@[i as int].id);
                        } else {
                            assert(self.peers@[i as int].id != self.peers@[p].id);
                        }
                    }
                }
                let ghost before = self.peers@;
                self.peers.remove(i);
                proof {
                    assert forall|a: int, b: int|
                        0 <= a < b < self.peers@.len() implies self.peers@[a].id != self.peers@[b].id by {
                        let aa = if a < i as int { a } else { a + 1 };
                        let bb = if b < i as int { b } else { b + 1 };
                        assert(self.peers@[a] == before[aa]);
                        assert(self.peers@[b] == before[bb]);
                    }
                    assert forall|k: int| 0 <= k < self.peers@.len() implies self.peers@[k].id != peer_id by {
                        let kk = if k < i as int { k } else { k + 1 };
                        assert(self.peers@[k] == before[kk]);
                        if kk < i as int {
                            assert(before[kk].id != before[i as int].id);
                        } else {
                            assert(before[i as int].id != before[kk].id);
                        }
                    }
                }
            },
            None => {},
        }
    }

    /// Answers a vote request of `candidate_id` for `term` at time `now`;
    /// a granted vote is recorded as a `VoteCast` event.
    pub fn handle_vote_request_at(&mut self, candidate_id: NodeId, term: Term, now: u64) -> (granted: bool)
        ensures
            (final(self).election(), granted) == vote_step(old(self).election(), candidate_id, term),
            granted ==> final(self).pending_events() == old(self).pending_events().push(
                LeaderElectionEvent::VoteCast {
                    voter_id: old(self).me(),
                    candidate_id,
                    term,
                    timestamp: now,
                },
            ),
            !granted ==> final(self).pending_events() == old(self).pending_events(),
            final(self).peer_list() == old(self).peer_list(),
            final(self).me() == old(self).me(),
            final(self).max_timeout() == old(self).max_timeout(),
            final(self).well_formed() == old(self).well_formed(),
            final(self).election_timer_spec() == old(self).election_timer_spec(),
            final(self).heartbeat_timer_spec() == old(self).heartbeat_timer_spec(),
    {
        if term < self.state.current_term {
            return false;
        }
        if term > self.state.current_term {
            self.state.current_term = term;
            self.state.voted_for = None;
            self.state.state = NodeState::Follower;
            self.state.current_leader = None;
        }
        let grant_vote = match self.state.voted_for {
            None => true,
            Some(v) => v == candidate_id,
        };
        if grant_vote {
            self.state.voted_for = Some(candidate_id);
            self.events.push(
                LeaderElectionEvent::VoteCast {
                    voter_id: self.config.node_id,
                    candidate_id,
                    term,
                    timestamp: now,
                },
            );
        }
        grant_vote
    }

    /// Answers a vote request of `candidate_id` for `term`.
    pub fn handle_vote_request(&mut self, candidate_id: NodeId, term: Term) -> (granted: bool)
        ensures
            (final(self).election(), granted) == vote_step(old(self).election(), candidate_id, term),
            granted ==> final(self).pending_events().len() == old(self).pending_events().len() + 1,
            !granted ==> final(self).pending_events() == old(self).pending_events(),
            final(self).peer_list() == old(self).peer_list(),
            final(self).me() == old(self).me(),
            final(self).max_timeout() == old(self).max_timeout(),
            final(self).well_formed() == old(self).well_formed(),
    {
        let now = platform::now_millis();
        self.handle_vote_request_at(candidate_id, term, now)
    }

    /// Takes in a heartbeat of `leader_id` for `term` at time `now`; one that
    /// is not older than the current term is recorded as a
    /// `HeartbeatReceived` event.
    pub fn handle_heartbeat_at(&mut self, leader_id: NodeId, term: Term, now: u64)
        requires
            now + old(self).max_timeout() <= u64::MAX,
        ensures
            final(self).election() == heartbeat_step(
                old(self).election(),
                leader_id,
                term,
                now,
                old(self).max_timeout(),
            ),
            term >= old(self).election().current_term ==> final(self).pending_events()
                == old(self).pending_events().push(
                LeaderElectionEvent::HeartbeatReceived { leader_id, term, timestamp: now },
            ),
            term < old(self).election().current_term ==> final(self).pending_events()
                == old(self).pending_events(),
            final(self).peer_list() == old(self).peer_list(),
            final(self).me() == old(self).me(),
            final(self).max_timeout() == old(self).max_timeout(),
            final(self).well_formed() == old(self).well_formed(),
            final(self).election_timer_spec() == old(self).election_timer_spec(),
            final(self).heartbeat_timer_spec() == old(self).heartbeat_timer_spec(),
    {
        if term >= self.state.current_term {
            self.state.current_term = term;
            self.state.current_leader = Some(leader_id);
            self.state.last_heartbeat = now;
            self.state.election_timeout = now + self.config.election_timeout_range.1;
            if self.state.state == NodeState::Candidate {
                self.state.state = NodeState::Follower;
                self.state.voted_for = None;
            }
            self.events.push(
                LeaderElectionEvent::HeartbeatReceived { leader_id, term, timestamp: now },
            );
        }
    }

    /// Takes in a heartbeat of `leader_id` for `term`.
    pub fn handle_heartbeat(&mut self, leader_id: NodeId, term: Term)
        requires
            old(self).max_timeout() <= u64::MAX / 2,
        ensures
            exists|now: u64|
                final(self).election() == heartbeat_step(
                    old(self).election(),
                    leader_id,
                    term,
                    now,
                    old(self).max_timeout(),
                ),
            term >= old(self).election().current_term ==> final(self).election().current_leader
                == Some(leader_id) && final(self).election().current_term == term,
            final(self).peer_list() == old(self).peer_list(),
            final(self).me() == old(self).me(),
            final(self).max_timeout() == old(self).max_timeout(),
            final(self).well_formed() == old(self).well_formed(),
    {
        let now = platform::now_millis();
        let now = if now > u64::MAX / 2 { u64::MAX / 2 } else { now };
        self.handle_heartbeat_at(leader_id, term, now);
    }

    /// Starts an election at time `now`: the term advances, this node votes
    /// for itself and becomes a candidate, and an `ElectionStarted` event is
    /// recorded.
    pub fn start_election_at(&mut self, now: u64)
        requires
            old(self).election().current_term < u64::MAX,
        ensures
            final(self).election() == election_start_step(old(self).election(), old(self).me(), now),
            final(self).pending_events() == old(self).pending_events().push(
                LeaderElectionEvent::ElectionStarted {
                    node_id: old(self).me(),
                    term: (old(self).election().current_term + 1) as u64,
                    timestamp: now,
                },
            ),
            final(self).peer_list() == old(self).peer_list(),
            final(self).me() == old(self).me(),
            final(self).max_timeout() == old(self).max_timeout(),
            final(self).well_formed() == old(self).well_formed(),
            final(self).election_timer_spec() == old(self).election_timer_spec(),
            final(self).heartbeat_timer_spec() == old(self).heartbeat_timer_spec(),
    {
        self.state.current_term = self.state.current_term + 1;
        self.state.voted_for = Some(self.config.node_id);
        self.state.state = NodeState::Candidate;
        self.state.current_leader = None;
        self.state.votes_received = 1;
        self.state.last_heartbeat = now;
        let term = self.state.current_term;
        self.events.push(
            LeaderElectionEvent::ElectionStarted { node_id: self.config.node_id, term, timestamp: now },
        );
    }

    /// Identifiers of the peers that a candidate asks for votes: those not
    /// known to be offline, in order.
    pub fn peers_to_contact(&self) -> (ids: Vec<NodeId>)
        ensures
            ids@ == self.peer_list().filter(|p: PeerNode| p.state != NodeState::Offline).map_values(
                |p: PeerNode| p.id,
            ),
    {
        let mut ids: Vec<NodeId> = Vec::new();
        let mut i: usize = 0;
        while i < self.peers.len()
            invariant
                i <= self.peers@.len(),
                ids@ == self.peers@.subrange(0, i as int).filter(
                    |p: PeerNode| p.state != NodeState::Offline,
                ).map_values(|p: PeerNode| p.id),
            decreases self.peers@.len() - i,
        {
            proof {
                let f = |p: PeerNode| p.state != NodeState::Offline;
                assert(self.peers@.subrange(0, i as int + 1).drop_last() == self.peers@.subrange(0, i as int));
                reveal(Seq::filter);
                assert(self.peers@.subrange(0, i as int + 1).last() == self.peers@[i as int]);
            }
            if self.peers[i].state != NodeState::Offline {
                ids.push(self.peers[i].id);
            }
            proof {
                let f = |p: PeerNode| p.state != NodeState::Offline;
                let g = |p: PeerNode| p.id;
                let pre = self.peers@.subrange(0, i as int);
                let post = self.peers@.subrange(0, i as int + 1);
                assert(post.filter(f) == if f(self.peers@[i as int]) { pre.filter(f).push(self.peers@[i as int]) } else { pre.filter(f) });
                assert(ids@ =~= post.filter(f).map_values(g));
            }
            i = i + 1;
        }
        proof {
            assert(self.peers@.subrange(0, self.peers@.len() as int) == self.peers@);
        }
        ids
    }

    /// Counts a vote response of `peer_id` for `term` at time `now`.  A
    /// candidate that reaches a majority of the cluster becomes the leader,
    /// which stops its election timer, starts its heartbeat timer and records
    /// `LeaderElected` and `NodeStateChanged`.  Returns whether this response
    /// made the node the leader.
    pub fn handle_vote_response_at(&mut self, peer_id: NodeId, term: Term, vote_granted: bool, now: u64) -> (won: bool)
        requires
            old(self).election().votes_received < u32::MAX,
        ensures
            (final(self).election(), won) == vote_response_step(
                old(self).election(),
                old(self).me(),
                old(self).peer_list().len(),
                term,
                vote_granted,
            ),
            won ==> final(self).pending_events() == old(self).pending_events().push(
                LeaderElectionEvent::LeaderElected {
                    leader_id: old(self).me(),
                    term,
                    votes_received: final(self).election().votes_received,
                    timestamp: now,
                },
            ).push(
                LeaderElectionEvent::NodeStateChanged {
                    node_id: old(self).me(),
                    old_state: NodeState::Candidate,
                    new_state: NodeState::Leader,
                    term,
                    timestamp: now,
                },
            ),
            won ==> final(self).election_timer_spec() is None && final(self).heartbeat_timer_spec(),
            !won ==> final(self).pending_events() == old(self).pending_events(),
            !won ==> final(self).election_timer_spec() == old(self).election_timer_spec()
                && final(self).heartbeat_timer_spec() == old(self).heartbeat_timer_spec(),
            final(self).peer_list() == old(self).peer_list(),
            final(self).me() == old(self).me(),
            final(self).max_timeout() == old(self).max_timeout(),
            final(self).well_formed() == old(self).well_formed(),
    {
        if self.state.state != NodeState::Candidate || term != self.state.current_term {
            return false;
        }
        if !vote_granted {
            return false;
        }
        self.state.votes_received = self.state.votes_received + 1;
        let total_nodes: usize = self.peers.len();
        let majority_count: u64 = (total_nodes / 2 + total_nodes % 2) as u64 + 1;
        if self.state.votes_received as u64 >= majority_count {
            let votes = self.state.votes_received;
            self.transition_to_leader_at(term, votes, now);
            true
        } else {
            false
        }
    }

    /// Counts a vote response of `peer_id` for `term`.
    pub fn handle_vote_response(&mut self, peer_id: NodeId, term: Term, vote_granted: bool) -> (won: bool)
        requires
            old(self).election().votes_received < u32::MAX,
        ensures
            (final(self).election(), won) == vote_response_step(
                old(self).election(),
                old(self).me(),
                old(self).peer_list().len(),
                term,
                vote_granted,
            ),
            final(self).peer_list() == old(self).peer_list(),
            final(self).me() == old(self).me(),
            final(self).max_timeout() == old(self).max_timeout(),
            final(self).well_formed() == old(self).well_formed(),
    {
        let now = platform::now_millis();
        self.handle_vote_response_at(peer_id, term, vote_granted, now)
    }

    /// Becomes the leader of `term`.
    fn transition_to_leader_at(&mut self, term: Term, votes_received: u32, now: u64)
        ensures
            final(self).election() == (ElectionState {
                state: NodeState::Leader,
                current_leader: Some(old(self).me()),
                ..old(self).election()
            }),
            final(self).pending_events() == old(self).pending_events().push(
                LeaderElectionEvent::LeaderElected {
                    leader_id: old(self).me(),
                    term,
                    votes_received,
                    timestamp: now,
                },
            ).push(
                LeaderElectionEvent::NodeStateChanged {
                    node_id: old(self).me(),
                    old_state: old(self).election().state,
                    new_state: NodeState::Leader,
                    term,
                    timestamp: now,
                },
            ),
            final(self).election_timer_spec() is None,
            final(self).heartbeat_timer_spec(),
            final(self).peer_list() == old(self).peer_list(),
            final(self).me() == old(self).me(),
            final(self).max_timeout() == old(self).max_timeout(),
            final(self).well_formed() == old(self).well_formed(),
    {
        let old_state = self.state.state;
        self.state.state = NodeState::Leader;
        self.state.current_leader = Some(self.config.node_id);
        self.election_timer = None;
        self.heartbeat_timer = true;
        self.events.push(
            LeaderElectionEvent::LeaderElected {
                leader_id: self.config.node_id,
                term,
                votes_received,
                timestamp: now,
            },
        );
        self.events.push(
            LeaderElectionEvent::NodeStateChanged {
                node_id: self.config.node_id,
                old_state,
                new_state: NodeState::Leader,
                term,
                timestamp: now,
            },
        );
    }

    /// Steps down to follower in `term` at time `now` and restarts the
    /// election timer with `timeout` milliseconds; a former leader stops its
    /// heartbeat timer.  Records `NodeStateChanged`.
    pub fn transition_to_follower_at(&mut self, term: Term, timeout: u64, now: u64)
        ensures
            final(self).election() == follower_step(old(self).election(), term),
            final(self).pending_events() == old(self).pending_events().push(
                LeaderElectionEvent::NodeStateChanged {
                    node_id: old(self).me(),
                    old_state: old(self).election().state,
                    new_state: NodeState::Follower,
                    term,
                    timestamp: now,
                },
            ),
            final(self).election_timer_spec() == Some(timeout),
            old(self).election().state == NodeState::Leader ==> !final(self).heartbeat_timer_spec(),
            old(self).election().state != NodeState::Leader ==> final(self).heartbeat_timer_spec()
                == old(self).heartbeat_timer_spec(),
            final(self).peer_list() == old(self).peer_list(),
            final(self).me() == old(self).me(),
            final(self).max_timeout() == old(self).max_timeout(),
            final(self).well_formed() == old(self).well_formed(),
    {
        let old_state = self.state.state;
        if term > self.state.current_term {
            self.state.current_term = term;
            self.state.voted_for = None;
        }
        self.state.state = NodeState::Follower;
        self.state.current_leader = None;
        self.state.votes_received = 0;
        if old_state == NodeState::Leader {
            self.heartbeat_timer = false;
        }
        self.election_timer = Some(timeout);
        self.events.push(
            LeaderElectionEvent::NodeStateChanged {
                node_id: self.config.node_id,
                old_state,
                new_state: NodeState::Follower,
                term,
                timestamp: now,
            },
        );
    }

    /// A random election timeout within the configured range.
    pub fn pick_election_timeout(&self) -> (timeout: u64)
        ensures
            self.min_timeout() <= self.max_timeout() ==> self.min_timeout() <= timeout
                <= self.max_timeout(),
    {
        let (low, high) = self.config.election_timeout_range;
        if low <= high {
            platform::random_between(low, high)
        } else {
            high
        }
    }

    /// Starts the manager: the node becomes a follower of term 0 with a
    /// fresh election timer.
    pub fn start(&mut self)
        ensures
            final(self).election() == follower_step(old(self).election(), 0),
            final(self).election_timer_spec() is Some,
            final(self).peer_list() == old(self).peer_list(),
            final(self).me() == old(self).me(),
            final(self).max_timeout() == old(self).max_timeout(),
            final(self).well_formed() == old(self).well_formed(),
    {
        let timeout = self.pick_election_timeout();
        let now = platform::now_millis();
        self.transition_to_follower_at(0, timeout, now);
    }

    /// Stops the manager: the timers stop and the node goes offline.
    pub fn stop(&mut self)
        ensures
            final(self).election() == (ElectionState { state: NodeState::Offline, ..old(self).election() }),
            final(self).election_timer_spec() is None,
            !final(self).heartbeat_timer_spec(),
            final(self).pending_events() == old(self).pending_events(),
            final(self).peer_list() == old(self).peer_list(),
            final(self).me() == old(self).me(),
            final(self).max_timeout() == old(self).max_timeout(),
            final(self).well_formed() == old(self).well_formed(),
    {
        self.election_timer = None;
        self.heartbeat_timer = false;
        self.state.state = NodeState::Offline;
    }

    /// Hands out the recorded events, oldest first, and forgets them.
    pub fn drain_events(&mut self) -> (events: Vec<LeaderElectionEvent>)
        ensures
            events@ == old(self).pending_events(),
            final(self).pending_events() == Seq::<LeaderElectionEvent>::empty(),
            final(self).election() == old(self).election(),
            final(self).peer_list() == old(self).peer_list(),
            final(self).me() == old(self).me(),
            final(self).max_timeout() == old(self).max_timeout(),
            final(self).well_formed() == old(self).well_formed(),
            final(self).election_timer_spec() == old(self).election_timer_spec(),
            final(self).heartbeat_timer_spec() == old(self).heartbeat_timer_spec(),
    {
        let mut out: Vec<LeaderElectionEvent> = Vec::new();
        std::mem::swap(&mut out, &mut self.events);
        out
    }
}

/// Terms never go back: no vote request, heartbeat, election start, vote
/// response or step-down leaves a node in an older term than before.
pub proof fn lemma_terms_never_decrease(
    s: ElectionState,
    me: NodeId,
    other: NodeId,
    term: Term,
    now: u64,
    timeout: u64,
    peers: nat,
    granted: bool,
)
    requires
        s.current_term < u64::MAX,
    ensures
        vote_step(s, other, term).0.current_term >= s.current_term,
        heartbeat_step(s, other, term, now, timeout).current_term >= s.current_term,
        election_start_step(s, me, now).current_term == s.current_term + 1,
        vote_response_step(s, me, peers, term, granted).0.current_term == s.current_term,
        follower_step(s, term).current_term >= s.current_term,
{
}

/// A node grants at most one candidate its vote in a term: after granting a
/// vote for `term` to `c1`, a request of another candidate `c2` for the same
/// term is refused.
pub proof fn lemma_one_vote_per_term(s: ElectionState, c1: NodeId, c2: NodeId, term: Term)
    requires
        vote_step(s, c1, term).1,
        c1 != c2,
    ensures
        !vote_step(vote_step(s, c1, term).0, c2, term).1,
        vote_step(vote_step(s, c1, term).0, c2, term).0 == vote_step(s, c1, term).0,
{
}

/// A granted vote is recorded: the node is then in the requested term and
/// has voted for the candidate; a request of an older term is refused and
/// changes nothing.
pub proof fn lemma_granted_vote_is_recorded(s: ElectionState, c: NodeId, term: Term)
    ensures
        vote_step(s, c, term).1 ==> vote_step(s, c, term).0.voted_for == Some(c)
            && vote_step(s, c, term).0.current_term == term,
        term < s.current_term ==> vote_step(s, c, term) == (s, false),
        vote_step(vote_step(s, c, term).0, c, term).1 == vote_step(s, c, term).1,
{
}

/// A node becomes leader only with votes from a majority of the cluster, and
/// only as a candidate of the term the votes are for.
pub proof fn lemma_leader_has_majority(
    s: ElectionState,
    me: NodeId,
    peers: nat,
    term: Term,
    granted: bool,
)
    requires
        s.votes_received < u32::MAX,
    ensures
        vote_response_step(s, me, peers, term, granted).1 ==> {
            &&& vote_response_step(s, me, peers, term, granted).0.votes_received >= majority(peers)
            &&& vote_response_step(s, me, peers, term, granted).0.state == NodeState::Leader
            &&& vote_response_step(s, me, peers, term, granted).0.current_leader == Some(me)
            &&& s.state == NodeState::Candidate
            &&& s.current_term == term
        },
{
}

/// A candidate wins on a granted vote of its own term exactly when that vote
/// gives it more than half the votes of the cluster of `peers` peers and
/// itself: any strict majority suffices, and nothing less does.
pub proof fn lemma_strict_majority_wins(s: ElectionState, me: NodeId, peers: nat)
    requires
        s.state == NodeState::Candidate,
        s.votes_received < u32::MAX,
    ensures
        vote_response_step(s, me, peers, s.current_term, true).1 <==> 2 * (s.votes_received + 1) > peers + 1,
        vote_response_step(s, me, peers, s.current_term, true).0.votes_received == s.votes_received + 1,
        vote_response_step(s, me, peers, s.current_term, false) == (s, false),
{
}

/// A node that starts an election is a candidate of the next term holding
/// its own vote, so the first vote granted for that term makes it leader
/// exactly when two votes are more than half the cluster.
pub proof fn lemma_first_granted_vote_after_start(s: ElectionState, me: NodeId, peers: nat, now: u64)
    requires
        s.current_term < u64::MAX,
    ensures
        ({
            let c = election_start_step(s, me, now);
            &&& c.state == NodeState::Candidate
            &&& c.current_term == s.current_term + 1
            &&& c.voted_for == Some(me)
            &&& c.votes_received == 1
            &&& vote_response_step(c, me, peers, c.current_term, true).1 <==> 4 > peers + 1
        }),
{
}

/// Two nodes of one cluster cannot both win the same term: each winner holds
/// a majority of votes for that term, and a majority of `n` nodes overlaps
/// every other majority.  Stated over vote counts: two disjoint sets of
/// voters cannot both reach a majority of `peers + 1` nodes.
pub proof fn lemma_majorities_overlap(peers: nat, votes_a: nat, votes_b: nat)
    requires
        votes_a >= majority(peers),
        votes_b >= majority(peers),
    ensures
        votes_a + votes_b > peers + 1,
{
}

/// A heartbeat that is not older than the current term establishes its
/// sender as leader of that term, and a candidate gives up its candidacy.
pub proof fn lemma_heartbeat_sets_leader(
    s: ElectionState,
    leader: NodeId,
    term: Term,
    now: u64,
    timeout: u64,
)
    requires
        term >= s.current_term,
    ensures
        heartbeat_step(s, leader, term, now, timeout).current_leader == Some(leader),
        heartbeat_step(s, leader, term, now, timeout).current_term == term,
        s.state == NodeState::Candidate ==> heartbeat_step(s, leader, term, now, timeout).state
            == NodeState::Follower,
{
}

} // verus!
