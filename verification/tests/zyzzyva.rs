use bft_simulation::config::SimulationConfig;
use bft_simulation::event::Event;
use bft_simulation::network::Network;
use bft_simulation::node::NodeType;
use bft_simulation::record::{Phase, Record, RecordBody};
use bft_simulation::simulation::{RunOutcome, Simulation};
use bft_simulation::time::Time;
use bft_simulation::zyzzyva::messages::{ClientRequest, ClientTimeout, Commit, LocalCommit,
    OrderRequest, SpeculativeResponse, ZyzzyvaMessage};
use bft_simulation::zyzzyva::state::State;

/// The number of progress records for `operation` with the given
/// phase.
fn count_phase(records: &[Record], operation: u32, phase: Phase) -> usize {
    records
        .iter()
        .filter(|r| {
            matches!(
                r.body,
                RecordBody::Progress { operation: op, phase: ph } if op == operation && ph == phase
            )
        })
        .count()
}

/// Zyzzyva fast path: five configured nodes (one of them the client),
/// one request with operation 7. All four replicas execute
/// speculatively, the client assembles its certificate and completes
/// without any slow-path Commit.
#[test]
fn zyzzyva_fast_path_five_nodes() {
    let config = SimulationConfig::new(NodeType::Zyzzyva, 5);
    let network = Network::new(0, 10, 10);
    let mut sim = Simulation::new(config, network, 1_000_000);
    sim.request_counter = 7;
    sim.add_event_to_queue(Event::new_admin_requests(1, 1000));
    let outcome = sim.run(100_000);
    assert_eq!(outcome, RunOutcome::Idle);

    assert_eq!(count_phase(&sim.records, 7, Phase::SpeculativeCommit), 4);
    assert_eq!(count_phase(&sim.records, 7, Phase::CommitCertificate), 1);
    assert_eq!(count_phase(&sim.records, 7, Phase::Completed), 1);
    // the fast path needs no slow-path Commit round
    assert_eq!(count_phase(&sim.records, 7, Phase::CommittedLocal), 0);
    assert_eq!(count_phase(&sim.records, 7, Phase::TimedOut), 0);
}

/// Zyzzyva slow path, driven message by message: the client collects
/// exactly a quorum of speculative responses, its timeout triggers the
/// Commit broadcast, each replica acknowledges with a LocalCommit, and
/// the client completes once a quorum has acknowledged.
#[test]
fn zyzzyva_slow_path_quorum_certificate() {
    let t = Time::new(100);
    let mut client = State::new(2, 5);
    assert_eq!(client.quorum_size, 3);

    // the simulation hands the client the request; it forwards to the
    // primary and schedules its own timeout
    let request = ClientRequest { operation: 9, sender_id: 0 };
    let forwarded = client
        .handle_message(ZyzzyvaMessage::ClientRequest(request), t)
        .expect("the client must forward the request");
    assert_eq!(forwarded.len(), 2);
    assert_eq!(forwarded[0].0, 1);
    assert!(matches!(forwarded[1].1, ZyzzyvaMessage::ClientTimeout(_)));

    // exactly a quorum of speculative responses arrives
    let c_req = ClientRequest { operation: 9, sender_id: 2 };
    for sender in [1, 3, 4] {
        let sr = SpeculativeResponse { c_req, view: 1, seq_number: 1, sender_id: sender };
        let out = client.handle_message(ZyzzyvaMessage::SpeculativeResponse(sr), t);
        assert!(out.is_none());
    }
    assert_eq!(count_phase(&client.results, 9, Phase::CommitCertificate), 1);
    assert_eq!(count_phase(&client.results, 9, Phase::Completed), 0);

    // the timeout fires: the certificate is a quorum but not complete,
    // so the client starts the slow path
    let commits = client
        .handle_message(ZyzzyvaMessage::ClientTimeout(ClientTimeout { req_id: 9 }), t)
        .expect("the slow path must broadcast a Commit");
    assert_eq!(commits.len(), 4);
    for (_, m) in &commits {
        match m {
            ZyzzyvaMessage::Commit(c) => {
                assert_eq!(c.req_id, 9);
                assert_eq!(c.certificate.len(), 3);
                assert_eq!(c.sender_id, 2);
            }
            other => panic!("expected a Commit, got {:?}", other),
        }
    }
    // below-quorum timeouts would have been recorded; this one was not
    assert_eq!(count_phase(&client.results, 9, Phase::TimedOut), 0);

    // a replica that executed speculatively commits locally on the
    // Commit and answers with a LocalCommit
    let mut replica = State::new(3, 5);
    let order = OrderRequest { c_req, view: 1, seq_number: 1, sender_id: 1 };
    let sr_out = replica
        .handle_message(ZyzzyvaMessage::OrderRequest(order), t)
        .expect("the backup must answer the order request");
    assert_eq!(sr_out.len(), 1);
    assert_eq!(sr_out[0].0, 2);

    let commit = match &commits[1].1 {
        ZyzzyvaMessage::Commit(c) => Commit {
            req_id: c.req_id,
            certificate: c.certificate.clone(),
            sender_id: c.sender_id,
        },
        _ => unreachable!(),
    };
    let ack = replica
        .handle_message(ZyzzyvaMessage::Commit(commit), t)
        .expect("the replica must acknowledge");
    assert_eq!(ack.len(), 1);
    assert_eq!(ack[0].0, 2);
    assert!(matches!(ack[0].1, ZyzzyvaMessage::LocalCommit(_)));
    // the entry is garbage-collected at once
    assert!(replica.log_entry(9).is_none());
    assert!(replica.has_committed(9));

    // a late OrderRequest for the collected operation is dropped
    let late = OrderRequest { c_req, view: 1, seq_number: 1, sender_id: 1 };
    assert!(replica.handle_message(ZyzzyvaMessage::OrderRequest(late), t).is_none());

    // the client completes once a quorum of acknowledgements is in
    for sender in [1, 3, 4] {
        let lc = LocalCommit { c_req, view: 1, seq_number: 1, sender_id: sender };
        let out = client.handle_message(ZyzzyvaMessage::LocalCommit(lc), t);
        assert!(out.is_none());
    }
    assert_eq!(count_phase(&client.results, 9, Phase::Completed), 1);
    assert!(client.has_committed(9));
    assert!(client.log_entry(9).is_none());
}

/// A timed-out request whose certificate is below the quorum is
/// recorded as timed out, and a timed-out entry accepts no further
/// speculative responses.
#[test]
fn zyzzyva_timeout_below_quorum() {
    let t = Time::new(50);
    let mut client = State::new(2, 5);
    let request = ClientRequest { operation: 4, sender_id: 0 };
    client.handle_message(ZyzzyvaMessage::ClientRequest(request), t);

    let c_req = ClientRequest { operation: 4, sender_id: 2 };
    let sr = SpeculativeResponse { c_req, view: 1, seq_number: 1, sender_id: 1 };
    client.handle_message(ZyzzyvaMessage::SpeculativeResponse(sr), t);

    let out = client.handle_message(ZyzzyvaMessage::ClientTimeout(ClientTimeout { req_id: 4 }), t);
    assert!(out.is_none());
    assert_eq!(count_phase(&client.results, 4, Phase::TimedOut), 1);

    // the entry only accepts slow-path traffic from now on
    let late = SpeculativeResponse { c_req, view: 1, seq_number: 1, sender_id: 3 };
    assert!(client.handle_message(ZyzzyvaMessage::SpeculativeResponse(late), t).is_none());
    let entry = client.log_entry(4).expect("entry must still exist");
    assert_eq!(entry.commit_certificate.len(), 1);
    assert!(entry.timed_out);
}

/// Idempotence: a duplicate LocalCommit below the quorum changes
/// nothing.
#[test]
fn zyzzyva_duplicate_local_commit_is_a_no_op() {
    let t = Time::new(8);
    let mut client = State::new(2, 5);
    let request = ClientRequest { operation: 6, sender_id: 0 };
    client.handle_message(ZyzzyvaMessage::ClientRequest(request), t);

    let c_req = ClientRequest { operation: 6, sender_id: 2 };
    let lc = LocalCommit { c_req, view: 1, seq_number: 1, sender_id: 3 };
    assert!(client.handle_message(ZyzzyvaMessage::LocalCommit(lc), t).is_none());
    let lc_len = client.log_entry(6).expect("entry").local_commits.len();
    let results_len = client.results.len();

    assert!(client.handle_message(ZyzzyvaMessage::LocalCommit(lc), t).is_none());
    let entry = client.log_entry(6).expect("entry");
    assert_eq!(entry.local_commits.len(), lc_len);
    assert_eq!(client.results.len(), results_len);
}
