use bft_simulation::config::log_result;
use bft_simulation::conv::u32_to_vec;
use bft_simulation::event::{Broadcast, EventType, Message};
use bft_simulation::network::Network;
use bft_simulation::record::{u32_to_decimal, u64_to_decimal, Phase, Record, RecordBody};
use bft_simulation::time::Time;

#[test]
fn decimal_rendering() {
    assert_eq!(u64_to_decimal(0), "0");
    assert_eq!(u64_to_decimal(7), "7");
    assert_eq!(u64_to_decimal(1234567890), "1234567890");
    assert_eq!(u64_to_decimal(u64::MAX), "18446744073709551615");
    assert_eq!(u32_to_decimal(305), "305");
}

#[test]
fn result_line_rendering() {
    let line = log_result(Time::new(1500), Some(3), "1;prepared");
    assert_eq!(line, "1500;3;1;prepared");
    let line = log_result(Time::new(0), None, "Simulation finished");
    assert_eq!(line, "0;-1;Simulation finished");
}

#[test]
fn record_rendering() {
    let r = Record {
        time: Time::new(42),
        node_id: Some(7),
        body: RecordBody::Progress { operation: 9, phase: Phase::Prepared },
    };
    assert_eq!(r.render(), "42;7;9;prepared");
    let r = Record {
        time: Time::new(815),
        node_id: Some(2),
        body: RecordBody::Progress { operation: 7, phase: Phase::CommitCertificate },
    };
    assert_eq!(r.render(), "815;2;7;commit_certificate");
    let r = Record { time: Time::new(1000), node_id: None, body: RecordBody::Finished };
    assert_eq!(r.render(), "1000;-1;Simulation finished");
}

#[test]
fn phase_names() {
    assert_eq!(Phase::Request.as_str(), "request");
    assert_eq!(Phase::PrePrepared.as_str(), "pre-prepared");
    assert_eq!(Phase::Prepared.as_str(), "prepared");
    assert_eq!(Phase::CommittedLocal.as_str(), "committed_local");
    assert_eq!(Phase::SpeculativeCommit.as_str(), "speculative_commit");
    assert_eq!(Phase::CommitCertificate.as_str(), "commit_certificate");
    assert_eq!(Phase::Completed.as_str(), "completed");
    assert_eq!(Phase::TimedOut.as_str(), "timed-out");
}

#[test]
fn little_endian_bytes() {
    assert_eq!(u32_to_vec(0x01020304), vec![4, 3, 2, 1]);
    assert_eq!(u32_to_vec(0), vec![0, 0, 0, 0]);
    assert_eq!(u32_to_vec(u32::MAX), vec![255, 255, 255, 255]);
    assert_eq!(u32_to_vec(256), vec![0, 1, 0, 0]);
}

/// Deterministic replay: with no omission and coinciding delay bounds,
/// the network's decision does not depend on the random draws.
#[test]
fn network_is_deterministic_without_omission() {
    let mut network = Network::new(0, 7, 7);
    let b1 = Broadcast::new(1, 2, Message::Dummy);
    let b2 = Broadcast::new(1, 2, Message::Dummy);
    let r1 = network.handle_broadcast(Time::new(100), b1);
    let r2 = network.handle_broadcast(Time::new(100), b2);
    assert_eq!(r1, r2);
    let e = r1.expect("no omission means delivery");
    assert_eq!(e.time.milli(), 107);
    match e.event_type {
        EventType::Reception(rc) => {
            assert_eq!(rc.id, 2);
            assert_eq!(rc.message, Message::Dummy);
        }
        other => panic!("expected a reception, got {:?}", other),
    }
}

/// The random delay stays within the configured bounds, run after run.
#[test]
fn network_delay_stays_in_bounds() {
    let mut network = Network::new(0, 3, 9);
    for _ in 0..50 {
        let b = Broadcast::new(1, 2, Message::Dummy);
        let e = network.handle_broadcast(Time::new(100), b).expect("no omission means delivery");
        assert!(e.time.milli() >= 103);
        assert!(e.time.milli() < 109);
    }
}

/// A certain omission probability drops every broadcast.
#[test]
fn network_full_omission_drops_everything() {
    let mut network = Network::new(1_000_000, 3, 9);
    for _ in 0..20 {
        let b = Broadcast::new(1, 2, Message::Dummy);
        assert!(network.handle_broadcast(Time::new(100), b).is_none());
    }
}
