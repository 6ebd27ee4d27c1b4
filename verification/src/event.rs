//! Everything related to events. An event is a virtual-time stamp and
//! a kind; the queue orders events by reversed time, and Admin events
//! take priority over everything else.

use vstd::prelude::*;

use crate::config::RequestBatchConfig;
use crate::pbft::messages::PBFTMessage;
use crate::time::Time;
use crate::zyzzyva::messages::ZyzzyvaMessage;

verus! {

/// Administrative instructions arriving from outside the simulation.
#[derive(Debug, PartialEq, Eq, Structural, Clone, Copy)]
pub enum AdminType {
    ClientRequests(RequestBatchConfig),
    Stop,
}

/// The kinds of events that can happen in the simulation.
#[verifier::ext_equal]
#[derive(Debug, PartialEq, Eq, Clone)]
pub enum EventType {
    Admin(AdminType),
    Network,
    Broadcast(Broadcast),
    Reception(Reception),
    Timeout(Timeout),
}

/// An event: when it happens, and what it is.
#[verifier::ext_equal]
#[derive(Debug, PartialEq, Eq, Clone)]
pub struct Event {
    pub time: Time,
    pub event_type: EventType,
}

/// Holds when an event is administrative; such events preempt all
/// timed work in the queue.
pub open spec fn is_admin(e: Event) -> bool {
    e.event_type is Admin
}

impl Event {
    fn new(event_type: EventType, time: Time) -> (e: Event)
        ensures
            e == (Event { event_type, time }),
    {
        Event { event_type, time }
    }

    /// An administrative stop event.
    pub fn new_admin_stop() -> (e: Event)
        ensures
            e.time@ == 0,
            e.event_type == EventType::Admin(AdminType::Stop),
    {
        Event::new(EventType::Admin(AdminType::Stop), Time::new(0))
    }

    /// An administrative stop event, under its older name.
    pub fn new_admin() -> (e: Event)
        ensures
            e.time@ == 0,
            e.event_type == EventType::Admin(AdminType::Stop),
    {
        Event::new_admin_stop()
    }

    /// An administrative event carrying a batch of client requests.
    pub fn new_admin_requests(number: u32, interval: u32) -> (e: Event)
        ensures
            e.time@ == 0,
            e.event_type == EventType::Admin(
                AdminType::ClientRequests(RequestBatchConfig { number, interval }),
            ),
    {
        Event::new(
            EventType::Admin(AdminType::ClientRequests(RequestBatchConfig::new(number, interval))),
            Time::new(0),
        )
    }

    /// An administrative event carrying an existing batch
    /// configuration.
    pub fn new_admin_requests_from_config(config: RequestBatchConfig) -> (e: Event)
        ensures
            e.time@ == 0,
            e.event_type == EventType::Admin(AdminType::ClientRequests(config)),
    {
        Event::new(EventType::Admin(AdminType::ClientRequests(config)), Time::new(0))
    }

    /// A broadcast event: `message` leaves `id_from` towards `id_to`
    /// at `time`.
    pub fn new_broadcast(id_from: u32, id_to: u32, message: Message, time: Time) -> (e: Event)
        ensures
            e == (Event {
                time,
                event_type: EventType::Broadcast(Broadcast { id_from, id_to, message }),
            }),
    {
        Event::new(EventType::Broadcast(Broadcast::new(id_from, id_to, message)), time)
    }

    /// A reception event: `message` arrives at node `id` at `time`.
    pub fn new_reception(id: u32, message: Message, time: Time) -> (e: Event)
        ensures
            e == (Event { time, event_type: EventType::Reception(Reception { id, message }) }),
    {
        Event::new(EventType::Reception(Reception::new(id, message)), time)
    }

    /// A timeout event: the scheduler will deliver `message` back to
    /// node `c_id` after the configured timeout.
    pub fn new_timeout(c_id: u32, message: Message, time: Time) -> (e: Event)
        ensures
            e == (Event { time, event_type: EventType::Timeout(Timeout { c_id, message }) }),
    {
        Event::new(EventType::Timeout(Timeout::new(c_id, message)), time)
    }
}

// Events are ordered by reversed time, and Admin events compare
// greater than everything, so that the queue hands them out first.
impl PartialOrd for Event {
    fn partial_cmp(&self, other: &Self) -> (r: Option<core::cmp::Ordering>) {
        match self.event_type {
            EventType::Admin(_) => Some(core::cmp::Ordering::Greater),
            _ => self.time.partial_cmp(&other.time),
        }
    }
}

impl vstd::std_specs::cmp::PartialOrdSpecImpl for Event {
    open spec fn obeys_partial_cmp_spec() -> bool {
        true
    }

    open spec fn partial_cmp_spec(&self, other: &Self) -> Option<core::cmp::Ordering> {
        if self.event_type is Admin {
            Some(core::cmp::Ordering::Greater)
        } else if self.time@ < other.time@ {
            Some(core::cmp::Ordering::Greater)
        } else if self.time@ > other.time@ {
            Some(core::cmp::Ordering::Less)
        } else {
            Some(core::cmp::Ordering::Equal)
        }
    }
}

/// A broadcast: a message on its way from one node towards another,
/// still subject to the network model.
#[verifier::ext_equal]
#[derive(Debug, PartialEq, Eq, Clone)]
pub struct Broadcast {
    pub id_from: u32,
    pub id_to: u32,
    pub message: Message,
}

impl Broadcast {
    pub fn new(id_from: u32, id_to: u32, message: Message) -> (b: Broadcast)
        ensures
            b == (Broadcast { id_from, id_to, message }),
    {
        Broadcast { id_from, id_to, message }
    }
}

/// A reception: a message arriving at a node.
#[verifier::ext_equal]
#[derive(Debug, PartialEq, Eq, Clone)]
pub struct Reception {
    pub id: u32,
    pub message: Message,
}

impl Reception {
    pub fn new(id: u32, message: Message) -> (r: Reception)
        ensures
            r == (Reception { id, message }),
    {
        Reception { id, message }
    }
}

/// A pending timeout: the scheduler turns it into a delayed reception
/// at the node that asked for it.
#[verifier::ext_equal]
#[derive(Debug, PartialEq, Eq, Clone)]
pub struct Timeout {
    pub c_id: u32,
    pub message: Message,
}

impl Timeout {
    pub fn new(c_id: u32, message: Message) -> (t: Timeout)
        ensures
            t == (Timeout { c_id, message }),
    {
        Timeout { c_id, message }
    }
}

/// A protocol message, tagged with its protocol family.
#[verifier::ext_equal]
#[derive(Debug, PartialEq, Eq, Clone)]
pub enum Message {
    Dummy,
    PBFT(PBFTMessage),
    Zyzzyva(ZyzzyvaMessage),
}

} // verus!
