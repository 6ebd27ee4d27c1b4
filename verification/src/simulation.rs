//! The simulation core: a single-timeline scheduler that pops events in
//! virtual-time order, dispatches them to nodes and to the network
//! model, collects the events that handlers produce, and gathers the
//! per-request result records.

use vstd::prelude::*;

use crate::config::{RequestBatchConfig, SimulationConfig};
use crate::event::{is_admin, AdminType, Event, EventType, Message};
use crate::network::Network;
use crate::node::{build_node, NodeType, SimNode};
use crate::record::{Record, RecordBody};
use crate::seqset::lemma_prefix_trans;
use crate::time::Time;

verus! {

/// How one scheduler step ended: the simulation goes on, an
/// administrative stop closed it, or the event hit a state the
/// protocol treats as unreachable (a routing error, an arithmetic
/// limit, or one of the hard-assert arrivals) — a fault the caller
/// must treat as fatal: these states are hard asserts of the design.
#[derive(Debug, PartialEq, Eq, Structural, Clone, Copy)]
pub enum DispatchOutcome {
    Progress,
    Finished,
    Fault,
}

/// How a bounded run ended: stopped by an administrative event, out of
/// events, stopped on a fault, or still busy when the step budget ran
/// out.
#[derive(Debug, PartialEq, Eq, Structural, Clone, Copy)]
pub enum RunOutcome {
    Finished,
    Idle,
    Fault,
    StepLimit,
}

/// The events an optional delivery contributes to the queue: one or
/// none.
pub open spec fn opt_to_seq(o: Option<Event>) -> Seq<Event> {
    match o {
        Some(e) => seq![e],
        None => Seq::empty(),
    }
}

/// When expanding a request batch is refused: the node kind takes no
/// client requests, or one of the generator's arithmetic limits is
/// hit. These are the hard asserts of the generator path.
pub open spec fn batch_fault(
    node_type: NodeType,
    counter: u64,
    now: Time,
    batch: RequestBatchConfig,
) -> bool {
    ||| !(node_type is PBFT || node_type is Zyzzyva)
    ||| counter + batch.number > u64::MAX
    ||| (batch.number > 0 && ((batch.number - 1) * batch.interval > u32::MAX || now@ + (batch.number
        - 1) * batch.interval > u64::MAX))
}

/// When delivering a reception is refused: the id names no node, the
/// arrival is one the protocol treats as unreachable, or an arithmetic
/// limit of the clock is hit. These are the hard asserts of the
/// routing path.
pub open spec fn reception_fault(
    node_map: Seq<SimNode>,
    now: Time,
    rc: crate::event::Reception,
) -> bool {
    ||| rc.id < 1
    ||| rc.id > node_map.len()
    ||| match node_map[rc.id - 1] {
        SimNode::Dummy(_) => now@ + 50 > u64::MAX,
        SimNode::PBFT(n) => now@ + 5 > u64::MAX || !(match rc.message {
            Message::PBFT(pm) => !(pm is ClientResponse) && (pm is ClientRequest
                ==> n.state.next_seq_num < u64::MAX),
            _ => false,
        }),
        SimNode::Zyzzyva(n) => now@ + 5 > u64::MAX || !(match rc.message {
            Message::Zyzzyva(zm) => (crate::zyzzyva::state::can_ignore_spec(n.state, zm)
                || !crate::zyzzyva::state::protocol_violation(n.state, zm)) && ((zm
                is ClientRequest && n.state.role is Primary) ==> n.state.next_seq_num
                < u64::MAX),
            _ => false,
        }),
    }
}

/// What delivering a reception to the addressed node does, on
/// success: the node's new state, the records gathered from it, and
/// the events scheduled are exactly what its protocol handler and the
/// host's event mapping give for the delivered message.
pub open spec fn node_delivery_post(
    pre: SimNode,
    post: SimNode,
    rc: crate::event::Reception,
    now: Time,
    recs: Seq<Record>,
    evs: Seq<Event>,
) -> bool {
    match (pre, post) {
        (SimNode::Dummy(a), SimNode::Dummy(b)) => {
            &&& b == a
            &&& recs == Seq::<Record>::empty()
            &&& evs == crate::node::dummy_events_of(a.id, now)
        },
        (SimNode::PBFT(a), SimNode::PBFT(b)) => {
            &&& b.id == a.id
            &&& (rc.message matches Message::PBFT(pm) && exists|
                mid: crate::pbft::state::ReplicaState,
                r0: Option<crate::pbft::state::Output>,
            |
                {
                    &&& #[trigger] crate::pbft::state::handle_message_post(
                        a.state,
                        mid,
                        pm,
                        now,
                        r0,
                    )
                    &&& recs == mid.results@
                    &&& b.state.log == mid.log
                    &&& b.state.cl_reqs == mid.cl_reqs
                    &&& b.state.next_seq_num == mid.next_seq_num
                    &&& crate::pbft::state::replica_frame(mid, b.state)
                    &&& b.state.results@ == Seq::<Record>::empty()
                    &&& (r0 is None ==> evs == Seq::<Event>::empty())
                    &&& (r0 matches Some(v) ==> evs == crate::node::pbft_events_of(v@, a.id, now))
                })
        },
        (SimNode::Zyzzyva(a), SimNode::Zyzzyva(b)) => {
            &&& b.id == a.id
            &&& (rc.message matches Message::Zyzzyva(zm) && exists|
                mid: crate::zyzzyva::state::State,
                r0: Option<crate::zyzzyva::state::Output>,
            |
                {
                    &&& #[trigger] crate::zyzzyva::state::handle_message_post(
                        a.state,
                        mid,
                        zm,
                        now,
                        r0,
                    )
                    &&& recs == mid.results@
                    &&& b.state.log == mid.log
                    &&& b.state.cl_reqs == mid.cl_reqs
                    &&& b.state.next_seq_num == mid.next_seq_num
                    &&& crate::zyzzyva::state::state_frame(mid, b.state)
                    &&& b.state.results@ == Seq::<Record>::empty()
                    &&& (r0 is None ==> evs == Seq::<Event>::empty())
                    &&& (r0 matches Some(v) ==> evs == crate::node::zyzzyva_events_of(
                        v@,
                        a.id,
                        now,
                    ))
                })
        },
        _ => false,
    }
}

/// Every event in the queue lies at or after the scheduler's clock,
/// administrative events excepted: they are timeless and preempt all
/// timed work.
pub open spec fn queue_ok(q: Seq<Event>, now: Time) -> bool {
    forall|i: int| 0 <= i < q.len() ==> is_admin(#[trigger] q[i]) || now@ <= q[i].time@
}

/// Looks for an administrative event in the queue.
fn find_admin_index(q: &Vec<Event>) -> (r: Option<usize>)
    ensures
        match r {
            Some(i) => i < q@.len() && is_admin(q@[i as int]),
            None => forall|j: int| 0 <= j < q@.len() ==> !is_admin(q@[j]),
        },
{
    let mut i: usize = 0;
    while i < q.len()
        invariant
            0 <= i <= q@.len(),
            forall|j: int| 0 <= j < i ==> !is_admin(q@[j]),
        decreases q@.len() - i,
    {
        if let EventType::Admin(_) = &q[i].event_type {
            return Some(i);
        }
        i = i + 1;
    }
    None
}

/// The position of an earliest event in the queue.
fn min_time_index(q: &Vec<Event>) -> (r: usize)
    requires
        q@.len() > 0,
    ensures
        r < q@.len(),
        forall|j: int| 0 <= j < q@.len() ==> q@[r as int].time@ <= (#[trigger] q@[j]).time@,
{
    let mut best: usize = 0;
    let mut i: usize = 1;
    while i < q.len()
        invariant
            0 < i <= q@.len(),
            best < i,
            forall|j: int| 0 <= j < i ==> q@[best as int].time@ <= (#[trigger] q@[j]).time@,
        decreases q@.len() - i,
    {
        if q[i].time.milli() < q[best].time.milli() {
            best = i;
        }
        i = i + 1;
    }
    best
}

/// The simulation: the event queue, the nodes, the network model, the
/// virtual clock, and the gathered result records.
#[derive(Debug)]
pub struct Simulation {
    /// The queue of pending events, prioritised by reversed time with
    /// administrative preemption.
    pub event_queue: Vec<Event>,
    /// The nodes; the node with id `i + 1` lives at index `i`.
    pub node_map: Vec<SimNode>,
    /// The kind of the nodes of this simulation.
    pub node_type: NodeType,
    /// The network model.
    pub network: Network,
    /// The scheduler's virtual clock; it never moves backwards.
    pub time: Time,
    /// The delay added when a timeout event is materialised into a
    /// reception.
    pub client_timeout: u64,
    /// Hands out operation ids for generated requests.
    pub request_counter: u64,
    /// The result records of the whole run, in emission order.
    pub records: Vec<Record>,
}

impl Simulation {
    /// The simulation invariant: a sound network model, every node
    /// well-formed and numbered by its position, and no queued event
    /// in the past of the clock.
    pub open spec fn wf(&self) -> bool {
        &&& self.network.wf()
        &&& queue_ok(self.event_queue@, self.time)
        &&& forall|i: int|
            0 <= i < self.node_map@.len() ==> (#[trigger] self.node_map@[i]).wf()
                && self.node_map@[i].spec_id() == i + 1
    }

    /// Builds a simulation: one node per id 1..=n of the configured
    /// kind, an empty queue, and the clock at zero.
    pub fn new(config: SimulationConfig, network: Network, client_timeout: u64) -> (sim:
        Simulation)
        requires
            network.wf(),
            config.next_id == 0,
            !(config.node_type is RBFT),
            config.node_type is PBFT ==> config.number_of_nodes >= 4,
            config.node_type is Zyzzyva ==> config.number_of_nodes >= 5,
        ensures
            sim.wf(),
            sim.time@ == 0,
            sim.event_queue@.len() == 0,
            sim.records@.len() == 0,
            sim.node_map@.len() == config.number_of_nodes,
            sim.node_type == config.node_type,
            sim.network == network,
            sim.client_timeout == client_timeout,
            sim.request_counter == 1,
    {
        let mut config = config;
        let ghost cfg0 = config;
        let mut node_map: Vec<SimNode> = Vec::new();
        let mut n: u32 = 0;
        while n < config.number_of_nodes
            invariant
                0 <= n <= cfg0.number_of_nodes,
                config.next_id == n,
                config.node_type == cfg0.node_type,
                config.number_of_nodes == cfg0.number_of_nodes,
                !(cfg0.node_type is RBFT),
                cfg0.node_type is PBFT ==> cfg0.number_of_nodes >= 4,
                cfg0.node_type is Zyzzyva ==> cfg0.number_of_nodes >= 5,
                node_map@.len() == n,
                forall|i: int|
                    0 <= i < node_map@.len() ==> (#[trigger] node_map@[i]).wf()
                        && node_map@[i].spec_id() == i + 1,
            decreases cfg0.number_of_nodes - n,
        {
            node_map.push(build_node(config.create_node_config()));
            n = n + 1;
        }
        Simulation {
            node_map,
            node_type: config.node_type,
            event_queue: Vec::new(),
            network,
            time: Time::new(0),
            client_timeout,
            request_counter: 1,
            records: Vec::new(),
        }
    }

    /// Nothing of the simulation changed but the queue.
    pub open spec fn frame_but_queue(pre: Simulation, post: Simulation) -> bool {
        &&& post.node_map == pre.node_map
        &&& post.node_type == pre.node_type
        &&& post.network == pre.network
        &&& post.time == pre.time
        &&& post.client_timeout == pre.client_timeout
        &&& post.request_counter == pre.request_counter
        &&& post.records == pre.records
    }

    /// The fixed configuration of a running simulation.
    pub open spec fn config_frame(pre: Simulation, post: Simulation) -> bool {
        &&& post.node_map@.len() == pre.node_map@.len()
        &&& post.node_type == pre.node_type
        &&& post.network == pre.network
        &&& post.client_timeout == pre.client_timeout
    }

    /// Schedules one event; it may not lie in the past of the clock.
    pub fn add_event_to_queue(&mut self, event: Event)
        requires
            old(self).wf(),
            is_admin(event) || old(self).time@ <= event.time@,
        ensures
            final (self).wf(),
            final (self).event_queue@ == old(self).event_queue@.push(event),
            Simulation::frame_but_queue(*old(self), *final (self)),
    {
        self.event_queue.push(event);
    }

    /// Schedules a batch of events, in order; none may lie in the past
    /// of the clock.
    pub fn add_events_to_queue(&mut self, events: Vec<Event>)
        requires
            old(self).wf(),
            queue_ok(events@, old(self).time),
        ensures
            final (self).wf(),
            final (self).event_queue@ == old(self).event_queue@ + events@,
            Simulation::frame_but_queue(*old(self), *final (self)),
    {
        let mut events = events;
        self.event_queue.append(&mut events);
    }

    /// Advances the clock; the new instant must not precede any queued
    /// timed event, so that the queue invariant survives.
    fn update_time(&mut self, time: Time)
        requires
            old(self).wf(),
            old(self).time@ <= time@,
            forall|j: int|
                0 <= j < old(self).event_queue@.len() ==> is_admin(
                    #[trigger] old(self).event_queue@[j],
                ) || time@ <= old(self).event_queue@[j].time@,
        ensures
            final (self).wf(),
            final (self).time == time,
            *final (self) == (Simulation { time, ..*old(self) }),
    {
        self.time = time;
    }

    /// Pops the event the scheduler must handle next: an administrative
    /// event if one is pending, else an earliest timed event; `None` on
    /// an empty queue. A popped timed event never lies in the past of
    /// the clock, and never after any event left behind.
    pub fn pop_event(&mut self) -> (r: Option<Event>)
        requires
            old(self).wf(),
        ensures
            final (self).wf(),
            Simulation::frame_but_queue(*old(self), *final (self)),
            match r {
                None => old(self).event_queue@.len() == 0 && *final (self) == *old(self),
                Some(e) => {
                    &&& exists|i: int|
                        0 <= i < old(self).event_queue@.len() && old(self).event_queue@[i] == e
                            && final (self).event_queue@ == old(self).event_queue@.remove(i)
                    &&& is_admin(e) || ({
                        &&& old(self).time@ <= e.time@
                        &&& forall|j: int|
                            0 <= j < final (self).event_queue@.len() ==> !is_admin(
                                #[trigger] final (self).event_queue@[j],
                            ) && e.time@ <= final (self).event_queue@[j].time@
                    })
                },
            },
    {
        if self.event_queue.len() == 0 {
            return None;
        }
        let ghost q0 = self.event_queue@;
        let idx: usize = match find_admin_index(&self.event_queue) {
            Some(i) => i,
            None => min_time_index(&self.event_queue),
        };
        let e = self.event_queue.remove(idx);
        proof {
            assert forall|j: int|
                0 <= j < self.event_queue@.len() implies (is_admin(
                #[trigger] self.event_queue@[j],
            ) || self.time@ <= self.event_queue@[j].time@) && (!is_admin(e) ==> !is_admin(
                self.event_queue@[j],
            ) && e.time@ <= self.event_queue@[j].time@) by {
                if j < idx {
                    assert(self.event_queue@[j] == q0[j]);
                } else {
                    assert(self.event_queue@[j] == q0[j + 1]);
                }
            }
        }
        Some(e)
    }

    /// Dispatches one event. Stop closes the run with a final record;
    /// a request batch is materialised through the generator; timed
    /// events advance the clock and route to the network model, to the
    /// addressed node, or — for a timeout — back into the queue as a
    /// delayed reception. Hard-assert conditions (a routing error, an
    /// arithmetic limit, a protocol-violating arrival) end the step
    /// with a fault.
    pub fn dispatch(&mut self, event: Event) -> (outcome: DispatchOutcome)
        requires
            old(self).wf(),
            is_admin(event) || ({
                &&& old(self).time@ <= event.time@
                &&& forall|j: int|
                    0 <= j < old(self).event_queue@.len() ==> event.time@ <= (
                    #[trigger] old(self).event_queue@[j]).time@
            }),
        ensures
            final (self).wf(),
            old(self).time@ <= final (self).time@,
            final (self).time@ == old(self).time@ || final (self).time@ == event.time@,
            old(self).records@.is_prefix_of(final (self).records@),
            Simulation::config_frame(*old(self), *final (self)),
            (outcome is Finished) <==> event.event_type == EventType::Admin(AdminType::Stop),
            match event.event_type {
                EventType::Admin(AdminType::Stop) => {
                    &&& final (self).records@ == old(self).records@.push(
                        Record {
                            time: old(self).time,
                            node_id: None,
                            body: RecordBody::Finished,
                        },
                    )
                    &&& final (self).event_queue@ == old(self).event_queue@
                    &&& final (self).time == old(self).time
                    &&& final (self).node_map == old(self).node_map
                    &&& final (self).request_counter == old(self).request_counter
                },
                EventType::Admin(AdminType::ClientRequests(batch)) => {
                    if batch_fault(
                        old(self).node_type,
                        old(self).request_counter,
                        old(self).time,
                        batch,
                    ) {
                        &&& outcome is Fault
                        &&& *final (self) == *old(self)
                    } else {
                        &&& outcome is Progress
                        &&& final (self).request_counter == old(self).request_counter
                            + batch.number
                        &&& final (self).event_queue@ == old(self).event_queue@
                            + crate::config::batch_events(
                            batch.number,
                            batch.interval,
                            old(self).request_counter,
                            old(self).time,
                            old(self).node_type,
                        )
                        &&& final (self).time == old(self).time
                        &&& final (self).records@ == old(self).records@
                        &&& final (self).node_map == old(self).node_map
                    }
                },
                EventType::Network => outcome is Progress && *final (self) == *old(self),
                EventType::Broadcast(b) => {
                    &&& final (self).time == event.time
                    &&& final (self).records@ == old(self).records@
                    &&& final (self).node_map == old(self).node_map
                    &&& final (self).request_counter == old(self).request_counter
                    &&& (if event.time@ + old(self).network.delay_max > u64::MAX {
                        &&& outcome is Fault
                        &&& final (self).event_queue@ == old(self).event_queue@
                    } else {
                        &&& outcome is Progress
                        &&& exists|od: u64, dd: u64|
                            {
                                &&& 0 <= od < crate::network::OMISSION_DENOM
                                &&& old(self).network.delay_min <= dd
                                    <= old(self).network.delay_max
                                &&& final (self).event_queue@ == old(self).event_queue@
                                    + opt_to_seq(
                                    #[trigger] crate::network::route_spec(
                                        old(self).network.omission_ppm,
                                        old(self).network.delay_min,
                                        old(self).network.delay_max,
                                        event.time,
                                        b,
                                        od,
                                        dd,
                                    ),
                                )
                            }
                    })
                },
                EventType::Reception(rc) => {
                    &&& final (self).time == event.time
                    &&& final (self).request_counter == old(self).request_counter
                    &&& final (self).node_map@.len() == old(self).node_map@.len()
                    &&& forall|i: int|
                        0 <= i < old(self).node_map@.len() && i != rc.id - 1
                            ==> final (self).node_map@[i] == old(self).node_map@[i]
                    &&& ((outcome is Fault) <==> reception_fault(
                        old(self).node_map@,
                        event.time,
                        rc,
                    ))
                    &&& (outcome is Fault ==> ({
                        &&& final (self).records@ == old(self).records@
                        &&& final (self).event_queue@ == old(self).event_queue@
                        &&& forall|i: int|
                            0 <= i < old(self).node_map@.len() ==> final (self).node_map@[i]
                                == old(self).node_map@[i]
                    }))
                    &&& (outcome is Progress ==> exists|recs: Seq<Record>, evs: Seq<Event>|
                        {
                            &&& #[trigger] node_delivery_post(
                                old(self).node_map@[rc.id - 1],
                                final (self).node_map@[rc.id - 1],
                                rc,
                                event.time,
                                recs,
                                evs,
                            )
                            &&& final (self).records@ == old(self).records@ + recs
                            &&& final (self).event_queue@ == old(self).event_queue@ + evs
                        })
                },
                EventType::Timeout(t) => {
                    &&& final (self).time == event.time
                    &&& final (self).records@ == old(self).records@
                    &&& final (self).node_map == old(self).node_map
                    &&& final (self).request_counter == old(self).request_counter
                    &&& (if event.time@ + old(self).client_timeout > u64::MAX {
                        &&& outcome is Fault
                        &&& final (self).event_queue@ == old(self).event_queue@
                    } else {
                        &&& outcome is Progress
                        &&& final (self).event_queue@ == old(self).event_queue@.push(
                            Event {
                                time: Time {
                                    milli_seconds: (event.time@ + old(self).client_timeout) as u64,
                                },
                                event_type: EventType::Reception(
                                    crate::event::Reception { id: t.c_id, message: t.message },
                                ),
                            },
                        )
                    })
                },
            },
    {
        let Event { time: event_time, event_type } = event;
        match event_type {
            EventType::Admin(admin_type) => {
                let outcome = match admin_type {
                    AdminType::Stop => {
                        self.records.push(
                            Record { time: self.time, node_id: None, body: RecordBody::Finished },
                        );
                        DispatchOutcome::Finished
                    },
                    AdminType::ClientRequests(batch) => self.handle_request_batch(batch),
                };
                proof {
                    assert(old(self).records@ =~= self.records@.subrange(
                        0,
                        old(self).records@.len() as int,
                    ));
                }
                outcome
            },
            EventType::Network => {
                // reserved
                proof {
                    assert(old(self).records@ =~= self.records@.subrange(
                        0,
                        old(self).records@.len() as int,
                    ));
                }
                DispatchOutcome::Progress
            },
            EventType::Broadcast(b) => {
                self.update_time(event_time);
                if self.time.milli() > u64::MAX - self.network.delay_max as u64 {
                    proof {
                        assert(old(self).records@ =~= self.records@.subrange(
                            0,
                            old(self).records@.len() as int,
                        ));
                    }
                    return DispatchOutcome::Fault;
                }
                let delivery = self.network.handle_broadcast(self.time, b);
                if let Some(e) = delivery {
                    self.add_event_to_queue(e);
                }
                proof {
                    assert(old(self).records@ =~= self.records@.subrange(
                        0,
                        old(self).records@.len() as int,
                    ));
                }
                DispatchOutcome::Progress
            },
            EventType::Reception(rc) => {
                self.update_time(event_time);
                self.handle_reception(rc)
            },
            EventType::Timeout(t) => {
                self.update_time(event_time);
                if self.time.milli() > u64::MAX - self.client_timeout {
                    proof {
                        assert(old(self).records@ =~= self.records@.subrange(
                            0,
                            old(self).records@.len() as int,
                        ));
                    }
                    return DispatchOutcome::Fault;
                }
                // a timeout re-enters the queue as a delayed reception
                let delayed = Event::new_reception(
                    t.c_id,
                    t.message,
                    self.time.add_milli(self.client_timeout),
                );
                self.add_event_to_queue(delayed);
                proof {
                    assert(old(self).records@ =~= self.records@.subrange(
                        0,
                        old(self).records@.len() as int,
                    ));
                }
                DispatchOutcome::Progress
            },
        }
    }

    /// Expands an administrative request batch into reception events;
    /// only the protocol node kinds take client requests, and the
    /// arithmetic limits of the generator are checked up front.
    fn handle_request_batch(&mut self, batch: RequestBatchConfig) -> (outcome: DispatchOutcome)
        requires
            old(self).wf(),
        ensures
            final (self).wf(),
            final (self).time == old(self).time,
            final (self).records == old(self).records,
            Simulation::config_frame(*old(self), *final (self)),
            !(outcome is Finished),
            (outcome is Fault) <==> batch_fault(
                old(self).node_type,
                old(self).request_counter,
                old(self).time,
                batch,
            ),
            outcome is Fault ==> *final (self) == *old(self),
            outcome is Progress ==> ({
                &&& final (self).request_counter == old(self).request_counter + batch.number
                &&& final (self).event_queue@ == old(self).event_queue@
                    + crate::config::batch_events(
                    batch.number,
                    batch.interval,
                    old(self).request_counter,
                    old(self).time,
                    old(self).node_type,
                )
                &&& final (self).node_map == old(self).node_map
            }),
    {
        let takes_requests = match self.node_type {
            NodeType::PBFT => true,
            NodeType::Zyzzyva => true,
            _ => false,
        };
        if !takes_requests {
            return DispatchOutcome::Fault;
        }
        if self.request_counter > u64::MAX - batch.number as u64 {
            return DispatchOutcome::Fault;
        }
        if batch.number > 0 {
            let n1: u64 = (batch.number - 1) as u64;
            let iv: u64 = batch.interval as u64;
            proof {
                assert(n1 * iv <= 0xFFFF_FFFFu64 * 0xFFFF_FFFFu64) by (nonlinear_arith)
                    requires
                        0 <= n1 <= 0xFFFF_FFFFu64,
                        0 <= iv <= 0xFFFF_FFFFu64,
                ;
            }
            let span: u64 = n1 * iv;
            if span > u32::MAX as u64 {
                return DispatchOutcome::Fault;
            }
            if self.time.milli() > u64::MAX - span {
                return DispatchOutcome::Fault;
            }
        }
        let new_events = batch.create_events(&mut self.request_counter, self.time, self.node_type);
        proof {
            assert forall|i: int|
                0 <= i < new_events@.len() implies is_admin(#[trigger] new_events@[i])
                || self.time@ <= new_events@[i].time@ by {
                assert(new_events@[i] == crate::config::batch_events(
                    batch.number,
                    batch.interval,
                    old(self).request_counter,
                    self.time,
                    self.node_type,
                )[i]);
                assert(0 <= i * batch.interval <= (batch.number - 1) * batch.interval) by (
                nonlinear_arith)
                    requires
                        0 <= i <= batch.number - 1,
                        batch.interval >= 0,
                ;
            }
        }
        self.add_events_to_queue(new_events);
        DispatchOutcome::Progress
    }

    /// Routes a reception to the addressed node, runs its handler,
    /// gathers the records it emitted, and schedules the events it
    /// answered with.
    fn handle_reception(&mut self, rc: crate::event::Reception) -> (outcome: DispatchOutcome)
        requires
            old(self).wf(),
        ensures
            final (self).wf(),
            final (self).time == old(self).time,
            old(self).records@.is_prefix_of(final (self).records@),
            Simulation::config_frame(*old(self), *final (self)),
            !(outcome is Finished),
            final (self).request_counter == old(self).request_counter,
            final (self).node_map@.len() == old(self).node_map@.len(),
            forall|i: int|
                0 <= i < old(self).node_map@.len() && i != rc.id - 1 ==> final (self).node_map@[i]
                    == old(self).node_map@[i],
            exists|evs: Seq<Event>|
                final (self).event_queue@ == old(self).event_queue@ + evs
                    && #[trigger] crate::node::events_after(evs, old(self).time),
            (outcome is Fault) <==> reception_fault(old(self).node_map@, old(self).time, rc),
            outcome is Fault ==> ({
                &&& final (self).records@ == old(self).records@
                &&& final (self).event_queue@ == old(self).event_queue@
                &&& forall|i: int|
                    0 <= i < old(self).node_map@.len() ==> final (self).node_map@[i] == old(
                        self,
                    ).node_map@[i]
            }),
            outcome is Progress ==> exists|recs: Seq<Record>, evs: Seq<Event>|
                {
                    &&& #[trigger] node_delivery_post(
                        old(self).node_map@[rc.id - 1],
                        final (self).node_map@[rc.id - 1],
                        rc,
                        old(self).time,
                        recs,
                        evs,
                    )
                    &&& final (self).records@ == old(self).records@ + recs
                    &&& final (self).event_queue@ == old(self).event_queue@ + evs
                },
    {
        // routing errors are hard asserts in the protocol design
        if rc.id < 1 || rc.id as usize > self.node_map.len() {
            proof {
                assert(old(self).records@ =~= self.records@.subrange(
                    0,
                    old(self).records@.len() as int,
                ));
                assert(self.event_queue@ =~= old(self).event_queue@ + Seq::<Event>::empty());
                assert(crate::node::events_after(Seq::<Event>::empty(), old(self).time));
            }
            return DispatchOutcome::Fault;
        }
        let idx = (rc.id - 1) as usize;
        let mut node = self.node_map.remove(idx);
        proof {
            assert(old(self).node_map@[idx as int] == node);
        }

        // the hard-assert arrivals and arithmetic limits, checked
        // before the handler runs
        let ok: bool = match &node {
            SimNode::Dummy(_) => self.time.milli() <= u64::MAX - 50,
            SimNode::PBFT(n) => self.time.milli() <= u64::MAX - 5 && match &rc.message {
                Message::PBFT(pm) => match pm {
                    crate::pbft::messages::PBFTMessage::ClientResponse(_) => false,
                    crate::pbft::messages::PBFTMessage::ClientRequest(_) => n.state.next_seq_num
                        < u64::MAX,
                    _ => true,
                },
                _ => false,
            },
            SimNode::Zyzzyva(n) => self.time.milli() <= u64::MAX - 5 && match &rc.message {
                Message::Zyzzyva(zm) => n.state.accepts(zm) && match zm {
                    crate::zyzzyva::messages::ZyzzyvaMessage::ClientRequest(_) => !(n.state.role
                        == crate::zyzzyva::state::Role::Primary) || n.state.next_seq_num
                        < u64::MAX,
                    _ => true,
                },
                _ => false,
            },
        };
        proof {
            assert(ok == !reception_fault(old(self).node_map@, old(self).time, rc));
        }
        if !ok {
            self.node_map.insert(idx, node);
            proof {
                assert forall|i: int|
                    0 <= i < self.node_map@.len() implies (#[trigger] self.node_map@[i]).wf()
                    && self.node_map@[i].spec_id() == i + 1 && self.node_map@[i] == old(
                    self,
                ).node_map@[i] by {
                    if i < idx {
                    } else if i > idx {
                        assert(self.node_map@[i] == old(self).node_map@[i]);
                    }
                }
                assert(old(self).records@ =~= self.records@.subrange(
                    0,
                    old(self).records@.len() as int,
                ));
                assert(self.event_queue@ =~= old(self).event_queue@ + Seq::<Event>::empty());
                assert(crate::node::events_after(Seq::<Event>::empty(), old(self).time));
            }
            return DispatchOutcome::Fault;
        }

        let ghost pre_node = node;
        let ghost grc = rc;
        let result: Option<Vec<Event>> = match &mut node {
            SimNode::Dummy(n) => n.handle_event(rc, self.time),
            SimNode::PBFT(n) => n.handle_event(rc, self.time),
            SimNode::Zyzzyva(n) => n.handle_event(rc, self.time),
        };
        let ghost mid_node = node;
        let ghost evsg = match result {
            Some(ref v) => v@,
            None => Seq::<Event>::empty(),
        };
        let mut new_records = node.take_results();
        let ghost recsg = new_records@;
        let ghost post_node = node;
        self.node_map.insert(idx, node);
        proof {
            assert forall|i: int|
                0 <= i < self.node_map@.len() implies (#[trigger] self.node_map@[i]).wf()
                && self.node_map@[i].spec_id() == i + 1 by {
                if i < idx {
                } else if i > idx {
                    assert(self.node_map@[i] == old(self).node_map@[i]);
                }
            }
            assert(self.node_map@[idx as int] == post_node);

            // the delivered node changed exactly as its handler says
            let now = old(self).time;
            match pre_node {
                SimNode::Dummy(a) => {
                    assert(node_delivery_post(pre_node, post_node, grc, now, recsg, evsg));
                },
                SimNode::PBFT(a) => {
                    match grc.message {
                        Message::PBFT(pm) => match (mid_node, post_node) {
                            (SimNode::PBFT(m), SimNode::PBFT(b)) => {
                                let r0 = choose|r0: Option<crate::pbft::state::Output>|
                                    {
                                        &&& #[trigger] crate::pbft::state::handle_message_post(
                                            a.state,
                                            m.state,
                                            pm,
                                            now,
                                            r0,
                                        )
                                        &&& (r0 is None <==> result is None)
                                        &&& (r0 matches Some(v) ==> result matches Some(evs)
                                            && evs@ == crate::node::pbft_events_of(v@, a.id, now))
                                    };
                                assert(crate::pbft::state::handle_message_post(
                                    a.state,
                                    m.state,
                                    pm,
                                    now,
                                    r0,
                                ) && recsg == m.state.results@ && b.state.log == m.state.log
                                    && b.state.cl_reqs == m.state.cl_reqs && b.state.next_seq_num
                                    == m.state.next_seq_num && crate::pbft::state::replica_frame(
                                    m.state,
                                    b.state,
                                ) && b.state.results@ == Seq::<Record>::empty() && (r0 is None
                                    ==> evsg == Seq::<Event>::empty()) && (r0 matches Some(v)
                                    ==> evsg == crate::node::pbft_events_of(v@, a.id, now)));
                                assert(node_delivery_post(pre_node, post_node, grc, now, recsg,
                                    evsg));
                            },
                            _ => {
                                assert(false);
                            },
                        },
                        _ => {
                            assert(false);
                        },
                    }
                },
                SimNode::Zyzzyva(a) => {
                    match grc.message {
                        Message::Zyzzyva(zm) => match (mid_node, post_node) {
                            (SimNode::Zyzzyva(m), SimNode::Zyzzyva(b)) => {
                                let r0 = choose|r0: Option<crate::zyzzyva::state::Output>|
                                    {
                                        &&& #[trigger] crate::zyzzyva::state::handle_message_post(
                                            a.state,
                                            m.state,
                                            zm,
                                            now,
                                            r0,
                                        )
                                        &&& (r0 is None <==> result is None)
                                        &&& (r0 matches Some(v) ==> result matches Some(evs)
                                            && evs@ == crate::node::zyzzyva_events_of(
                                            v@,
                                            a.id,
                                            now,
                                        ))
                                    };
                                assert(crate::zyzzyva::state::handle_message_post(
                                    a.state,
                                    m.state,
                                    zm,
                                    now,
                                    r0,
                                ) && recsg == m.state.results@ && b.state.log == m.state.log
                                    && b.state.cl_reqs == m.state.cl_reqs && b.state.next_seq_num
                                    == m.state.next_seq_num && crate::zyzzyva::state::state_frame(
                                    m.state,
                                    b.state,
                                ) && b.state.results@ == Seq::<Record>::empty() && (r0 is None
                                    ==> evsg == Seq::<Event>::empty()) && (r0 matches Some(v)
                                    ==> evsg == crate::node::zyzzyva_events_of(v@, a.id, now)));
                                assert(node_delivery_post(pre_node, post_node, grc, now, recsg,
                                    evsg));
                            },
                            _ => {
                                assert(false);
                            },
                        },
                        _ => {
                            assert(false);
                        },
                    }
                },
            }
        }
        self.records.append(&mut new_records);
        match result {
            Some(new_events) => {
                self.add_events_to_queue(new_events);
                proof {
                    assert(crate::node::events_after(evsg, old(self).time));
                }
            },
            None => {
                proof {
                    assert(self.event_queue@ =~= old(self).event_queue@ + Seq::<Event>::empty());
                    assert(crate::node::events_after(Seq::<Event>::empty(), old(self).time));
                }
            },
        }
        proof {
            assert(old(self).records@ =~= self.records@.subrange(
                0,
                old(self).records@.len() as int,
            ));
            assert(self.records@ == old(self).records@ + recsg);
            assert(self.event_queue@ == old(self).event_queue@ + evsg);
        }
                DispatchOutcome::Progress
    }

    /// Runs the scheduler for at most `max_steps` events: pop, then
    /// dispatch, until the queue runs dry, an administrative stop or a
    /// fault arrives, or the budget is spent. The clock never moves
    /// backwards, and the records only grow.
    pub fn run(&mut self, max_steps: u64) -> (outcome: RunOutcome)
        requires
            old(self).wf(),
        ensures
            final (self).wf(),
            old(self).time@ <= final (self).time@,
            old(self).records@.is_prefix_of(final (self).records@),
            Simulation::config_frame(*old(self), *final (self)),
            outcome is Idle ==> final (self).event_queue@.len() == 0,
            old(self).event_queue@.len() == 0 && max_steps > 0 ==> outcome is Idle,
            outcome is Finished ==> ({
                &&& final (self).records@.len() > 0
                &&& final (self).records@.last().body == RecordBody::Finished
            }),
    {
        proof {
            assert(old(self).records@ =~= old(self).records@.subrange(
                0,
                old(self).records@.len() as int,
            ));
        }
        let mut steps: u64 = 0;
        while steps < max_steps
            invariant
                self.wf(),
                old(self).time@ <= self.time@,
                old(self).records@.is_prefix_of(self.records@),
                Simulation::config_frame(*old(self), *self),
                steps <= max_steps,
                old(self).event_queue@.len() == 0 && max_steps > 0 ==> steps == 0
                    && self.event_queue@.len() == 0,
            decreases max_steps - steps,
        {
            let ghost before = *self;
            let popped = self.pop_event();
            match popped {
                None => {
                    return RunOutcome::Idle;
                },
                Some(event) => {
                    let outcome = self.dispatch(event);
                    proof {
                        lemma_prefix_trans(old(self).records@, before.records@, self.records@);
                    }
                    match outcome {
                        DispatchOutcome::Progress => {},
                        DispatchOutcome::Finished => {
                            proof {
                                assert(self.records@.last().body == RecordBody::Finished);
                            }
                            return RunOutcome::Finished;
                        },
                        DispatchOutcome::Fault => {
                            return RunOutcome::Fault;
                        },
                    }
                },
            }
            steps = steps + 1;
        }
        RunOutcome::StepLimit
    }
}

/// The time-ordering invariant of the scheduler: of any two timed
/// events popped one after the other, the first is no later than the
/// second; administrative events preempt regardless of time. The
/// premises are exactly what `pop_event` and `dispatch` guarantee: a
/// popped timed event lies at or after the clock, dispatching it
/// advances the clock at least that far, and the clock never moves
/// backwards.
pub proof fn lemma_popped_time_ordering(t0: u64, e1: Event, t1: u64, t2: u64, e2: Event)
    requires
        !is_admin(e1) ==> t0 <= e1.time@ && e1.time@ <= t1,
        t1 <= t2,
        !is_admin(e2) ==> t2 <= e2.time@,
        !is_admin(e2),
    ensures
        is_admin(e1) || e1.time@ <= e2.time@,
{
}

} // verus!

