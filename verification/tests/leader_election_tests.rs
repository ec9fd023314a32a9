use rustci_core::leader_election::{LeaderElectionConfig, LeaderElectionManager, NodeState, PeerNode};

#[test]
fn test_leader_election_creation() {
    let election_manager = LeaderElectionManager::new(LeaderElectionConfig::default_config());
    assert_eq!(election_manager.get_state(), NodeState::Follower);
    assert_eq!(election_manager.get_current_term(), 0);
    assert!(!election_manager.is_leader());
}

#[test]
fn test_vote_request_handling() {
    let mut election_manager = LeaderElectionManager::new(LeaderElectionConfig::default_config());
    let candidate_id = uuid::Uuid::new_v4().as_u128();
    assert!(election_manager.handle_vote_request(candidate_id, 1));
    let other_candidate = uuid::Uuid::new_v4().as_u128();
    assert!(!election_manager.handle_vote_request(other_candidate, 1));
    assert!(election_manager.handle_vote_request(candidate_id, 1));
}

#[test]
fn test_heartbeat_handling() {
    let mut election_manager = LeaderElectionManager::new(LeaderElectionConfig::default_config());
    let leader_id = uuid::Uuid::new_v4().as_u128();
    election_manager.handle_heartbeat(leader_id, 1);
    assert_eq!(election_manager.get_current_leader(), Some(leader_id));
    assert_eq!(election_manager.get_current_term(), 1);
}

#[test]
fn stale_vote_request_is_refused() {
    let mut m = LeaderElectionManager::new_at(LeaderElectionConfig::default_config(), 0);
    m.handle_heartbeat_at(5, 3, 10);
    assert!(!m.handle_vote_request_at(6, 2, 11));
    assert_eq!(m.get_current_term(), 3);
}

#[test]
fn election_timeout_within_range() {
    let m = LeaderElectionManager::new(LeaderElectionConfig::default_config());
    for _ in 0..20 {
        let t = m.pick_election_timeout();
        assert!((150..=300).contains(&t));
    }
}

#[test]
fn election_with_one_peer() {
    let mut m = LeaderElectionManager::new_at(LeaderElectionConfig::default_config(), 0);
    m.add_peer(PeerNode {
        id: 77,
        address: "10.0.0.2:7000".to_string(),
        state: NodeState::Follower,
        term: 0,
        last_heartbeat: 0,
        voted_for_us: false,
    });
    m.start_election_at(1);
    assert_eq!(m.get_current_term(), 1);
    assert_eq!(m.get_state(), NodeState::Candidate);
    assert_eq!(m.votes_received(), 1);
    assert_eq!(m.peers_to_contact(), vec![77]);
    let won = m.handle_vote_response_at(77, 1, true, 2);
    assert!(won);
    assert!(m.is_leader());
    assert_eq!(m.get_current_leader(), Some(m.node_id()));
}
