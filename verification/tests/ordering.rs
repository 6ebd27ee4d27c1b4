use bft_simulation::config::SimulationConfig;
use bft_simulation::event::{Event, Message};
use bft_simulation::network::Network;
use bft_simulation::node::NodeType;
use bft_simulation::simulation::{RunOutcome, Simulation};
use bft_simulation::time::Time;

#[test]
/// Check the ordering of time (lower time must be greater, so the heap removes it first)
fn lib_check_time_ordering() {
    let time_small = Time::new(1);
    let time_large = Time::new(100);
    assert!(time_small > time_large);
}

#[test]
/// Check the ordering of Events (admin and time ordering)
fn lib_check_event_ordering() {
    let event_early = Event::new_broadcast(1, 2, Message::Dummy, Time::new(1));
    let event_late = Event::new_broadcast(1, 2, Message::Dummy, Time::new(100));
    let event_admin = Event::new_admin();
    assert!(event_early > event_late);
    assert!(event_admin > event_early);
}

#[test]
/// Check the ordering of time (lower time must be greater, so the heap removes it first)
fn mod_check_time_ordering() {
    let time_small = Time::new(1);
    let time_large = Time::new(100);
    assert!(time_small > time_large);
}

#[test]
/// Check the ordering of Events (admin and time ordering)
fn mod_check_event_ordering() {
    let event_early = Event::new_broadcast(1, 2, Message::Dummy, Time::new(1));
    let event_late = Event::new_broadcast(1, 2, Message::Dummy, Time::new(100));
    let event_admin = Event::new_admin_stop();
    assert!(event_early > event_late);
    assert!(event_admin > event_early);
}

#[test]
fn time_arithmetic() {
    let t = Time::new(100);
    assert_eq!(t.add_milli(50).milli(), 150);
    assert_eq!(t.sub_milli(30).milli(), 70);
    assert_eq!(t.add(Time::new(11)).milli(), 111);
    assert_eq!(t.sub(Time::new(11)).milli(), 89);
    assert_eq!(t.to_string(), "100");
}

#[test]
/// The queue hands out the earliest event first, and an administrative
/// event before any timed one, whatever their insertion order.
fn queue_pops_in_time_order() {
    let config = SimulationConfig::new(NodeType::Dummy, 2);
    let network = Network::new(0, 1, 1);
    let mut sim = Simulation::new(config, network, 1000);
    sim.add_event_to_queue(Event::new_reception(1, Message::Dummy, Time::new(30)));
    sim.add_event_to_queue(Event::new_reception(1, Message::Dummy, Time::new(10)));
    sim.add_event_to_queue(Event::new_reception(1, Message::Dummy, Time::new(20)));

    let e1 = sim.pop_event().expect("an event should be pending");
    let e2 = sim.pop_event().expect("an event should be pending");
    let e3 = sim.pop_event().expect("an event should be pending");
    assert_eq!(e1.time.milli(), 10);
    assert_eq!(e2.time.milli(), 20);
    assert_eq!(e3.time.milli(), 30);
    assert!(sim.pop_event().is_none());

    sim.add_event_to_queue(Event::new_reception(1, Message::Dummy, Time::new(40)));
    sim.add_event_to_queue(Event::new_admin_stop());
    let first = sim.pop_event().expect("an event should be pending");
    assert!(matches!(
        first.event_type,
        bft_simulation::event::EventType::Admin(_)
    ));
}

#[test]
/// A dummy cluster plays ping-pong forever; the bounded run stops on
/// its step budget.
fn dummy_cluster_hits_step_limit() {
    let config = SimulationConfig::new(NodeType::Dummy, 2);
    let network = Network::new(0, 1, 1);
    let mut sim = Simulation::new(config, network, 1000);
    sim.add_event_to_queue(Event::new_reception(1, Message::Dummy, Time::new(0)));
    let outcome = sim.run(50);
    assert_eq!(outcome, RunOutcome::StepLimit);
}

#[test]
/// A reception addressed to a node that does not exist is a routing
/// error, which the scheduler treats as fatal.
fn routing_error_is_a_fault() {
    let config = SimulationConfig::new(NodeType::Dummy, 2);
    let network = Network::new(0, 1, 1);
    let mut sim = Simulation::new(config, network, 1000);
    sim.add_event_to_queue(Event::new_reception(99, Message::Dummy, Time::new(1)));
    let outcome = sim.run(50);
    assert_eq!(outcome, RunOutcome::Fault);
}
