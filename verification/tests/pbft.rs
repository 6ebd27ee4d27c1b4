use bft_simulation::config::SimulationConfig;
use bft_simulation::event::Event;
use bft_simulation::network::Network;
use bft_simulation::node::NodeType;
use bft_simulation::pbft::messages::{ClientRequest, CommitMessage, PBFTMessage, PrePrepareMessage,
    PrepareMessage};
use bft_simulation::record::{Phase, Record, RecordBody};
use bft_simulation::pbft::state::ReplicaState;
use bft_simulation::simulation::{RunOutcome, Simulation};
use bft_simulation::time::Time;

#[test]
fn require_prepreare_message_in_prepare_quorum() {
    let num_of_nodes = 4;
    let f: usize = 1;
    let quorum_size: usize = 2 * f + 1;

    let mut state = ReplicaState::new(1337, num_of_nodes);

    let c_req = ClientRequest {
        operation: 0,
        sender_id: 0,
    };
    let mut prepare_msg = PrepareMessage {
        c_req,
        view: 1,
        seq_number: 1,
        sender_id: 1,
    };

    for i in 1..=3 {
        prepare_msg.sender_id = i;
        state.handle_prepare_message(prepare_msg, Time::new(32));
    }

    if let Some(entry) = state.log_entry(c_req.operation) {
        assert!(entry.prepare_quorum.len() >= quorum_size);
        assert_eq!(entry.has_prepare_quorum_of(quorum_size), false);
        assert_eq!(entry.prepared, false);
    } else {
        panic!("Entry should exist!");
    }
}

#[test]
fn state_transition_from_prepared_to_committed() {
    let num_of_nodes = 4;
    let mut state = ReplicaState::new(1337, num_of_nodes);
    let c_req = ClientRequest {
        operation: 0,
        sender_id: 0,
    };
    let mut commit_msg = CommitMessage {
        c_req,
        view: 1,
        seq_number: 1,
        sender_id: 1,
    };

    for i in 1..num_of_nodes {
        commit_msg.sender_id = i;
        state.handle_commit_message(commit_msg, Time::new(32));
    }

    // we cannot commit locally without being prepared, although we might have
    // a commit quorum present
    if let Some(entry) = state.log_entry(c_req.operation) {
        assert_eq!(entry.committed_local, false);
        assert_eq!(entry.prepared, false);
        assert_eq!(entry.has_commit_quorum_of(state.quorum_size), true);
    } else {
        panic!("Entry should exist!");
    }

    state.handle_pre_prepare_message(
        PrePrepareMessage {
            c_req,
            view: 1,
            seq_number: 1,
            sender_id: 1,
        },
        Time::new(32),
    );

    let mut prepare_msg = PrepareMessage {
        c_req,
        view: 1,
        seq_number: 1,
        sender_id: 1,
    };

    for i in 1..num_of_nodes {
        prepare_msg.sender_id = i;
        state.handle_prepare_message(prepare_msg, Time::new(32));
    }

    // after becoming prepared and having a commit quorum collected we
    // can finally commit locally
    if let Some(entry) = state.log_entry(c_req.operation) {
        assert_eq!(entry.prepared, true);
        assert_eq!(entry.committed_local, true);
    } else {
        panic!("Entry should exist!");
    }
}

/// The number of progress records for `operation` with the given
/// phase.
fn count_phase(records: &[Record], operation: u32, phase: Phase) -> usize {
    records
        .iter()
        .filter(|r| {
            matches!(
                r.body,
                RecordBody::Progress { operation: op, phase: ph } if op == operation && ph == phase
            )
        })
        .count()
}

/// PBFT happy path: four nodes, one request, no omission. The primary
/// records the request, every backup pre-prepares, and at least a
/// quorum of nodes prepares and commits locally; the stop event closes
/// the stream.
#[test]
fn pbft_happy_path_four_nodes() {
    let config = SimulationConfig::new(NodeType::PBFT, 4);
    let network = Network::new(0, 10, 10);
    let mut sim = Simulation::new(config, network, 1_000_000);
    sim.add_event_to_queue(Event::new_admin_requests(1, 1000));
    let outcome = sim.run(100_000);
    assert_eq!(outcome, RunOutcome::Idle);

    assert_eq!(count_phase(&sim.records, 1, Phase::Request), 1);
    assert_eq!(count_phase(&sim.records, 1, Phase::PrePrepared), 3);
    // a quorum is three nodes; with nothing lost, all four prepare and
    // commit
    assert!(count_phase(&sim.records, 1, Phase::Prepared) >= 3);
    assert!(count_phase(&sim.records, 1, Phase::CommittedLocal) >= 3);
    assert_eq!(count_phase(&sim.records, 1, Phase::Prepared), 4);
    assert_eq!(count_phase(&sim.records, 1, Phase::CommittedLocal), 4);

    sim.add_event_to_queue(Event::new_admin_stop());
    let outcome = sim.run(10);
    assert_eq!(outcome, RunOutcome::Finished);
    let last = sim.records.last().expect("the stream must close");
    assert_eq!(last.body, RecordBody::Finished);
    assert_eq!(last.render(), format!("{};-1;Simulation finished", last.time.milli()));
}

/// Out-of-order delivery: node 2 sees Prepare votes before its
/// PrePrepare and still reaches committed-local for the operation.
#[test]
fn pbft_out_of_order_delivery() {
    let mut state = ReplicaState::new(2, 4);
    let c_req = ClientRequest { operation: 1, sender_id: 31415 };
    let t = Time::new(5);

    // the Prepare votes arrive first and open the entry
    for sender in [3, 4] {
        let vote = PrepareMessage { c_req, view: 1, seq_number: 1, sender_id: sender };
        state.handle_message(PBFTMessage::Prepare(vote), t);
    }
    assert!(!state.log_entry(1).expect("entry must exist").prepared);

    // the PrePrepare from the primary arrives late and completes the
    // Prepare quorum
    let pp = PrePrepareMessage { c_req, view: 1, seq_number: 1, sender_id: 1 };
    state.handle_message(PBFTMessage::PrePrepare(pp), t);
    assert!(state.log_entry(1).expect("entry must exist").prepared);

    // Commit votes from the peers let node 2 commit locally; the entry
    // is garbage-collected into the committed set
    for sender in [1, 3, 4] {
        let vote = CommitMessage { c_req, view: 1, seq_number: 1, sender_id: sender };
        state.handle_message(PBFTMessage::Commit(vote), t);
    }
    assert!(state.log_entry(1).is_none());
    assert!(state.has_committed(1));
}

/// Quorum monotonicity and safety, concretely: the `prepared` record
/// precedes `committed_local`, and a committed entry was prepared with
/// a full commit quorum when it flipped.
#[test]
fn pbft_commit_needs_prepare_first() {
    let mut state = ReplicaState::new(2, 4);
    let c_req = ClientRequest { operation: 7, sender_id: 31415 };
    let t = Time::new(9);

    // a full commit quorum alone must not commit the entry
    for sender in [1, 3, 4] {
        let vote = CommitMessage { c_req, view: 1, seq_number: 1, sender_id: sender };
        state.handle_message(PBFTMessage::Commit(vote), t);
    }
    let entry = state.log_entry(7).expect("entry must exist");
    assert!(!entry.committed_local);
    assert!(entry.has_commit_quorum_of(state.quorum_size));

    let pp = PrePrepareMessage { c_req, view: 1, seq_number: 1, sender_id: 1 };
    state.handle_message(PBFTMessage::PrePrepare(pp), t);
    let vote = PrepareMessage { c_req, view: 1, seq_number: 1, sender_id: 3 };
    state.handle_message(PBFTMessage::Prepare(vote), t);

    // the flips were recorded in order: prepared before committed_local
    let phases: Vec<Phase> = state
        .results
        .iter()
        .filter_map(|r| match r.body {
            RecordBody::Progress { operation: 7, phase } => Some(phase),
            _ => None,
        })
        .collect();
    let prepared_at = phases.iter().position(|p| *p == Phase::Prepared);
    let committed_at = phases.iter().position(|p| *p == Phase::CommittedLocal);
    assert!(prepared_at.expect("prepared") < committed_at.expect("committed"));
    assert!(state.has_committed(7));
}

/// Idempotence: delivering the same Prepare vote twice leaves the
/// replica in an identical state, and the second delivery produces no
/// new events and no new records.
#[test]
fn pbft_duplicate_prepare_is_a_no_op() {
    let mut state = ReplicaState::new(2, 4);
    let c_req = ClientRequest { operation: 3, sender_id: 31415 };
    let t = Time::new(1);
    let vote = PrepareMessage { c_req, view: 1, seq_number: 1, sender_id: 3 };

    let first = state.handle_message(PBFTMessage::Prepare(vote), t);
    assert!(first.is_none());
    let pq_len = state.log_entry(3).expect("entry").prepare_quorum.len();
    let results_len = state.results.len();

    let second = state.handle_message(PBFTMessage::Prepare(vote), t);
    assert!(second.is_none());
    let entry = state.log_entry(3).expect("entry");
    assert_eq!(entry.prepare_quorum.len(), pq_len);
    assert!(!entry.prepared);
    assert_eq!(state.results.len(), results_len);
}

/// GC soundness: votes about a committed operation are dropped, and
/// the log entry is never resurrected.
#[test]
fn pbft_no_resurrection_after_commit() {
    let mut state = ReplicaState::new(2, 4);
    let c_req = ClientRequest { operation: 1, sender_id: 31415 };
    let t = Time::new(2);

    let pp = PrePrepareMessage { c_req, view: 1, seq_number: 1, sender_id: 1 };
    state.handle_message(PBFTMessage::PrePrepare(pp), t);
    for sender in [3, 4] {
        let vote = PrepareMessage { c_req, view: 1, seq_number: 1, sender_id: sender };
        state.handle_message(PBFTMessage::Prepare(vote), t);
    }
    for sender in [1, 3, 4] {
        let vote = CommitMessage { c_req, view: 1, seq_number: 1, sender_id: sender };
        state.handle_message(PBFTMessage::Commit(vote), t);
    }
    assert!(state.has_committed(1));
    assert!(state.log_entry(1).is_none());
    let log_len = state.log_len();
    let results_len = state.results.len();

    // late votes for the committed operation are no-ops
    let late_prepare = PrepareMessage { c_req, view: 1, seq_number: 1, sender_id: 4 };
    assert!(state.handle_message(PBFTMessage::Prepare(late_prepare), t).is_none());
    let late_commit = CommitMessage { c_req, view: 1, seq_number: 1, sender_id: 4 };
    assert!(state.handle_message(PBFTMessage::Commit(late_commit), t).is_none());
    assert!(state.log_entry(1).is_none());
    assert_eq!(state.log_len(), log_len);
    assert_eq!(state.results.len(), results_len);
}

/// Cluster-size sweep: the same two requests complete on clusters of
/// 4, 7 and 10 nodes, with one local commit per replica and request.
#[test]
fn pbft_cluster_size_sweep() {
    for n in [4u32, 7, 10] {
        let config = SimulationConfig::new(NodeType::PBFT, n);
        let network = Network::new(0, 10, 10);
        let mut sim = Simulation::new(config, network, 1_000_000);
        sim.add_event_to_queue(Event::new_admin_requests(2, 1000));
        let outcome = sim.run(1_000_000);
        assert_eq!(outcome, RunOutcome::Idle);
        for op in [1u32, 2] {
            assert_eq!(count_phase(&sim.records, op, Phase::Request), 1);
            assert_eq!(count_phase(&sim.records, op, Phase::CommittedLocal), n as usize);
        }
    }
}

/// With omission, the run still drains: the request is recorded, and
/// the scheduler ends cleanly when no events remain.
#[test]
fn pbft_with_omission_drains() {
    let config = SimulationConfig::new(NodeType::PBFT, 4);
    let network = Network::new(300_000, 10, 20);
    let mut sim = Simulation::new(config, network, 1_000_000);
    sim.add_event_to_queue(Event::new_admin_requests(1, 1000));
    let outcome = sim.run(1_000_000);
    assert_eq!(outcome, RunOutcome::Idle);
    assert_eq!(count_phase(&sim.records, 1, Phase::Request), 1);
    assert!(count_phase(&sim.records, 1, Phase::CommittedLocal) <= 4);
}
