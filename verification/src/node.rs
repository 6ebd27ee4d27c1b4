//! Everything related to nodes. A node receives a reception event and
//! may answer with new events; the concrete behaviour is one of the
//! implemented replica kinds, dispatched over a tagged variant.

use vstd::prelude::*;

use crate::config::NodeConfig;
use crate::event::{Event, EventType, Message, Reception};
use crate::pbft;
use crate::pbft::state::ReplicaState;
use crate::record::Record;
use crate::time::Time;
use crate::zyzzyva;
use crate::zyzzyva::state::State;

verus! {

/// The kinds of nodes a simulation can be built from. `RBFT` is
/// reserved and not implemented.
#[derive(Debug, PartialEq, Eq, Structural, Clone, Copy)]
pub enum NodeType {
    Dummy,
    PBFT,
    Zyzzyva,
    RBFT,
}

/// Events a node hands back to the scheduler never lie in the past of
/// the reception that caused them.
pub open spec fn events_after(evs: Seq<Event>, now: Time) -> bool {
    forall|i: int| 0 <= i < evs.len() ==> now@ <= (#[trigger] evs[i]).time@
}

/// The events a dummy node answers a reception with: node 1 pings node
/// 2 twice, node 2 pongs node 1 once, everyone else stays silent.
pub open spec fn dummy_events_of(id: u32, now: Time) -> Seq<Event> {
    if id == 1 {
        seq![
            Event {
                time: Time { milli_seconds: (now@ + 5) as u64 },
                event_type: EventType::Broadcast(
                    crate::event::Broadcast { id_from: 1u32, id_to: 2u32, message: Message::Dummy },
                ),
            },
            Event {
                time: Time { milli_seconds: (now@ + 10) as u64 },
                event_type: EventType::Broadcast(
                    crate::event::Broadcast { id_from: 1u32, id_to: 2u32, message: Message::Dummy },
                ),
            },
        ]
    } else if id == 2 {
        seq![
            Event {
                time: Time { milli_seconds: (now@ + 50) as u64 },
                event_type: EventType::Broadcast(
                    crate::event::Broadcast { id_from: 2u32, id_to: 1u32, message: Message::Dummy },
                ),
            },
        ]
    } else {
        Seq::empty()
    }
}

/// The trivial reference node: node 1 answers every reception with two
/// broadcasts to node 2, node 2 answers with one broadcast back, and
/// everyone else stays silent.
#[derive(Debug)]
pub struct DummyNode {
    pub id: u32,
}

impl DummyNode {
    pub fn new(config: NodeConfig) -> (node: DummyNode)
        ensures
            node.id == config.id,
    {
        DummyNode { id: config.id }
    }

    /// Answers a reception with the fixed ping-pong broadcasts.
    pub fn handle_event(&mut self, reception: Reception, time: Time) -> (r: Option<Vec<Event>>)
        requires
            time@ + 50 <= u64::MAX,
        ensures
            *final (self) == *old(self),
            r matches Some(evs) && evs@ == dummy_events_of(old(self).id, time),
            r matches Some(evs) ==> events_after(evs@, time),
    {
        let time_current = time;
        let mut return_events: Vec<Event> = Vec::new();

        if self.id == 1 {
            return_events.push(
                Event::new_broadcast(self.id, 2, Message::Dummy, time_current.add_milli(5)),
            );
            return_events.push(
                Event::new_broadcast(self.id, 2, Message::Dummy, time_current.add_milli(10)),
            );
        } else if self.id == 2 {
            return_events.push(
                Event::new_broadcast(self.id, 1, Message::Dummy, time_current.add_milli(50)),
            );
        }
        proof {
            assert(return_events@ =~= dummy_events_of(self.id, time));
        }

        Some(return_events)
    }
}

/// The broadcast events a PBFT host makes of its replica's output: one
/// broadcast per addressed message, sent a fixed hop later.
pub open spec fn pbft_events_of(out: Seq<(u32, pbft::messages::PBFTMessage)>, from: u32, time: Time)
    -> Seq<Event> {
    Seq::new(
        out.len(),
        |i: int|
            Event {
                time: Time { milli_seconds: (time@ + 5) as u64 },
                event_type: EventType::Broadcast(
                    crate::event::Broadcast {
                        id_from: from,
                        id_to: out[i].0,
                        message: Message::PBFT(out[i].1),
                    },
                ),
            },
    )
}

/// A host for a single PBFT replica: it unwraps protocol messages from
/// receptions and wraps the replica's answers into broadcast events.
#[derive(Debug)]
pub struct PBFTNode {
    /// The id of the node.
    pub id: u32,
    /// The state required to take part in a PBFT cluster.
    pub state: ReplicaState,
}

impl PBFTNode {
    /// The host's id and its replica's agree, and the replica is
    /// well-formed.
    pub open spec fn wf(&self) -> bool {
        &&& self.state.wf()
        &&& self.id == self.state.id
    }

    pub fn new(config: NodeConfig) -> (node: PBFTNode)
        requires
            config.number_of_nodes >= 4,
        ensures
            node.wf(),
            node.id == config.id,
            node.state.num_of_nodes == config.number_of_nodes,
            node.state.next_seq_num == 0,
            node.state.log@.len() == 0,
            node.state.cl_reqs@.len() == 0,
            node.state.results@.len() == 0,
    {
        PBFTNode { state: ReplicaState::new(config.id, config.number_of_nodes), id: config.id }
    }

    /// Handles a reception: the replica handles the protocol message,
    /// and every answer goes out as a broadcast one hop later. A PBFT
    /// node only ever receives PBFT messages, and a replica never
    /// receives a ClientResponse.
    pub fn handle_event(&mut self, reception: Reception, time: Time) -> (r: Option<Vec<Event>>)
        requires
            old(self).wf(),
            reception.message matches Message::PBFT(pm) && !(pm is ClientResponse),
            (reception.message matches Message::PBFT(pm) && pm is ClientRequest) ==> old(
                self,
            ).state.next_seq_num < u64::MAX,
            time@ + 5 <= u64::MAX,
        ensures
            final (self).wf(),
            final (self).id == old(self).id,
            pbft::state::replica_frame(old(self).state, final (self).state),
            old(self).state.results@.is_prefix_of(final (self).state.results@),
            reception.message matches Message::PBFT(pm) ==> exists|r0: Option<pbft::state::Output>|
                {
                    &&& #[trigger] pbft::state::handle_message_post(
                        old(self).state,
                        final (self).state,
                        pm,
                        time,
                        r0,
                    )
                    &&& (r0 is None <==> r is None)
                    &&& (r0 matches Some(v) ==> r matches Some(evs) && evs@ == pbft_events_of(
                        v@,
                        old(self).id,
                        time,
                    ))
                },
            r matches Some(evs) ==> events_after(evs@, time),
    {
        match reception.message {
            Message::PBFT(pbft_message) => {
                let r0 = self.state.handle_message(pbft_message, time);
                let ghost r0g = r0;
                match r0 {
                    Some(out_events) => {
                        let mut events: Vec<Event> = Vec::new();
                        let mut i: usize = 0;
                        while i < out_events.len()
                            invariant
                                time@ + 5 <= u64::MAX,
                                0 <= i <= out_events@.len(),
                                events@.len() == i,
                                forall|j: int|
                                    0 <= j < i ==> events@[j] == pbft_events_of(
                                        out_events@,
                                        self.id,
                                        time,
                                    )[j],
                            decreases out_events@.len() - i,
                        {
                            let (recv_id, msg) = out_events[i];
                            events.push(
                                Event::new_broadcast(
                                    self.id,
                                    recv_id,
                                    Message::PBFT(msg),
                                    time.add_milli(5),
                                ),
                            );
                            i = i + 1;
                        }
                        proof {
                            assert(events@ =~= pbft_events_of(out_events@, self.id, time));
                        }
                        Some(events)
                    },
                    None => None,
                }
            },
            _ => {
                proof {
                    assert(false);
                }
                None
            },
        }
    }

    /// Hands the replica's result records over, oldest first.
    pub fn take_results(&mut self) -> (r: Vec<Record>)
        ensures
            r@ == old(self).state.results@,
            final (self).state.results@ == Seq::<Record>::empty(),
            final (self).id == old(self).id,
            final (self).state.log == old(self).state.log,
            final (self).state.cl_reqs == old(self).state.cl_reqs,
            final (self).state.next_seq_num == old(self).state.next_seq_num,
            pbft::state::replica_frame(old(self).state, final (self).state),
            old(self).wf() ==> final (self).wf(),
    {
        self.state.take_results()
    }
}

/// The events a Zyzzyva host makes of its node's output: a
/// ClientTimeout goes back to the scheduler as a timeout event, to be
/// materialised after the configured client timeout; everything else
/// goes out as a broadcast one hop later.
pub open spec fn zyzzyva_events_of(
    out: Seq<(u32, zyzzyva::messages::ZyzzyvaMessage)>,
    from: u32,
    time: Time,
) -> Seq<Event> {
    Seq::new(
        out.len(),
        |i: int|
            if out[i].1 is ClientTimeout {
                Event {
                    time,
                    event_type: EventType::Timeout(
                        crate::event::Timeout { c_id: out[i].0, message: Message::Zyzzyva(out[i].1) },
                    ),
                }
            } else {
                Event {
                    time: Time { milli_seconds: (time@ + 5) as u64 },
                    event_type: EventType::Broadcast(
                        crate::event::Broadcast {
                            id_from: from,
                            id_to: out[i].0,
                            message: Message::Zyzzyva(out[i].1),
                        },
                    ),
                }
            },
    )
}

/// A host for a single Zyzzyva node (replica or client): it unwraps
/// protocol messages from receptions and wraps the node's answers into
/// broadcast or timeout events.
#[derive(Debug)]
pub struct ZyzzyvaNode {
    /// The id of the node.
    pub id: u32,
    /// The state required to take part in a Zyzzyva cluster.
    pub state: State,
}

impl ZyzzyvaNode {
    /// The host's id and its node's agree, and the node is
    /// well-formed.
    pub open spec fn wf(&self) -> bool {
        &&& self.state.wf()
        &&& self.id == self.state.id
    }

    pub fn new(config: NodeConfig) -> (node: ZyzzyvaNode)
        requires
            config.number_of_nodes >= 5,
        ensures
            node.wf(),
            node.id == config.id,
            node.state.num_of_nodes == config.number_of_nodes - 1,
            node.state.next_seq_num == 0,
            node.state.log@.len() == 0,
            node.state.cl_reqs@.len() == 0,
            node.state.results@.len() == 0,
    {
        ZyzzyvaNode { state: State::new(config.id, config.number_of_nodes), id: config.id }
    }

    /// Handles a reception: the node handles the protocol message; a
    /// ClientTimeout it asks for goes back to the scheduler as a
    /// timeout event, every other answer goes out as a broadcast one
    /// hop later. A Zyzzyva node only ever receives Zyzzyva messages,
    /// and never one of the arrivals `protocol_violation` describes.
    pub fn handle_event(&mut self, reception: Reception, time: Time) -> (r: Option<Vec<Event>>)
        requires
            old(self).wf(),
            reception.message is Zyzzyva,
            reception.message matches Message::Zyzzyva(zm) ==> zyzzyva::state::can_ignore_spec(
                old(self).state,
                zm,
            ) || !zyzzyva::state::protocol_violation(old(self).state, zm),
            (reception.message matches Message::Zyzzyva(zm) && zm is ClientRequest && old(
                self,
            ).state.role is Primary) ==> old(self).state.next_seq_num < u64::MAX,
            time@ + 5 <= u64::MAX,
        ensures
            final (self).wf(),
            final (self).id == old(self).id,
            zyzzyva::state::state_frame(old(self).state, final (self).state),
            old(self).state.results@.is_prefix_of(final (self).state.results@),
            reception.message matches Message::Zyzzyva(zm) ==> exists|
                r0: Option<zyzzyva::state::Output>,
            |
                {
                    &&& #[trigger] zyzzyva::state::handle_message_post(
                        old(self).state,
                        final (self).state,
                        zm,
                        time,
                        r0,
                    )
                    &&& (r0 is None <==> r is None)
                    &&& (r0 matches Some(v) ==> r matches Some(evs) && evs@ == zyzzyva_events_of(
                        v@,
                        old(self).id,
                        time,
                    ))
                },
            r matches Some(evs) ==> events_after(evs@, time),
    {
        match reception.message {
            Message::Zyzzyva(zyzzyva_message) => {
                let r0 = self.state.handle_message(zyzzyva_message, time);
                match r0 {
                    Some(mut out_events) => {
                        let ghost orig = out_events@;
                        let mut events: Vec<Event> = Vec::new();
                        while out_events.len() > 0
                            invariant
                                time@ + 5 <= u64::MAX,
                                events@.len() + out_events@.len() == orig.len(),
                                out_events@ =~= orig.subrange(
                                    events@.len() as int,
                                    orig.len() as int,
                                ),
                                forall|j: int|
                                    0 <= j < events@.len() ==> events@[j] == zyzzyva_events_of(
                                        orig,
                                        self.id,
                                        time,
                                    )[j],
                            decreases out_events@.len(),
                        {
                            let pair = out_events.remove(0);
                            let recv_id = pair.0;
                            let msg = pair.1;
                            if let zyzzyva::messages::ZyzzyvaMessage::ClientTimeout(_) = &msg {
                                events.push(
                                    Event::new_timeout(recv_id, Message::Zyzzyva(msg), time),
                                );
                            } else {
                                events.push(
                                    Event::new_broadcast(
                                        self.id,
                                        recv_id,
                                        Message::Zyzzyva(msg),
                                        time.add_milli(5),
                                    ),
                                );
                            }
                            proof {
                                assert(out_events@ =~= orig.subrange(
                                    events@.len() as int,
                                    orig.len() as int,
                                ));
                            }
                        }
                        proof {
                            assert(events@ =~= zyzzyva_events_of(orig, self.id, time));
                        }
                        Some(events)
                    },
                    None => None,
                }
            },
            _ => {
                proof {
                    assert(false);
                }
                None
            },
        }
    }

    /// Hands the node's result records over, oldest first.
    pub fn take_results(&mut self) -> (r: Vec<Record>)
        ensures
            r@ == old(self).state.results@,
            final (self).state.results@ == Seq::<Record>::empty(),
            final (self).id == old(self).id,
            final (self).state.log == old(self).state.log,
            final (self).state.cl_reqs == old(self).state.cl_reqs,
            final (self).state.next_seq_num == old(self).state.next_seq_num,
            zyzzyva::state::state_frame(old(self).state, final (self).state),
            old(self).wf() ==> final (self).wf(),
    {
        self.state.take_results()
    }
}

/// One node of the simulation, whatever its kind.
#[derive(Debug)]
pub enum SimNode {
    Dummy(DummyNode),
    PBFT(PBFTNode),
    Zyzzyva(ZyzzyvaNode),
}

impl SimNode {
    /// The wrapped node is well-formed.
    pub open spec fn wf(&self) -> bool {
        match self {
            SimNode::Dummy(_) => true,
            SimNode::PBFT(n) => n.wf(),
            SimNode::Zyzzyva(n) => n.wf(),
        }
    }

    /// The node's id.
    pub open spec fn spec_id(&self) -> u32 {
        match self {
            SimNode::Dummy(n) => n.id,
            SimNode::PBFT(n) => n.id,
            SimNode::Zyzzyva(n) => n.id,
        }
    }

    /// The result records the node has buffered.
    pub open spec fn spec_results(&self) -> Seq<Record> {
        match self {
            SimNode::Dummy(_) => Seq::empty(),
            SimNode::PBFT(n) => n.state.results@,
            SimNode::Zyzzyva(n) => n.state.results@,
        }
    }

    /// Two nodes that differ at most in their record buffers.
    pub open spec fn same_but_results(pre: SimNode, post: SimNode) -> bool {
        match (pre, post) {
            (SimNode::Dummy(a), SimNode::Dummy(b)) => b == a,
            (SimNode::PBFT(a), SimNode::PBFT(b)) => {
                &&& b.id == a.id
                &&& b.state.log == a.state.log
                &&& b.state.cl_reqs == a.state.cl_reqs
                &&& b.state.next_seq_num == a.state.next_seq_num
                &&& pbft::state::replica_frame(a.state, b.state)
            },
            (SimNode::Zyzzyva(a), SimNode::Zyzzyva(b)) => {
                &&& b.id == a.id
                &&& b.state.log == a.state.log
                &&& b.state.cl_reqs == a.state.cl_reqs
                &&& b.state.next_seq_num == a.state.next_seq_num
                &&& zyzzyva::state::state_frame(a.state, b.state)
            },
            _ => false,
        }
    }

    /// Hands the node's result records over, oldest first, leaving the
    /// buffer empty; the protocol state itself is untouched.
    pub fn take_results(&mut self) -> (r: Vec<Record>)
        ensures
            r@ == old(self).spec_results(),
            final (self).spec_results() == Seq::<Record>::empty(),
            SimNode::same_but_results(*old(self), *final (self)),
            final (self).wf() == old(self).wf(),
            final (self).spec_id() == old(self).spec_id(),
    {
        match self {
            SimNode::Dummy(_) => Vec::new(),
            SimNode::PBFT(n) => n.take_results(),
            SimNode::Zyzzyva(n) => n.take_results(),
        }
    }
}

/// Builds a node of the configured kind; `RBFT` nodes are not
/// implemented.
pub fn build_node(config: NodeConfig) -> (node: SimNode)
    requires
        !(config.node_type is RBFT),
        config.node_type is PBFT ==> config.number_of_nodes >= 4,
        config.node_type is Zyzzyva ==> config.number_of_nodes >= 5,
    ensures
        node.wf(),
        node.spec_id() == config.id,
        match config.node_type {
            NodeType::Dummy => node is Dummy,
            NodeType::PBFT => node is PBFT,
            NodeType::Zyzzyva => node is Zyzzyva,
            NodeType::RBFT => false,
        },
{
    match config.node_type {
        NodeType::Dummy => SimNode::Dummy(DummyNode::new(config)),
        NodeType::PBFT => SimNode::PBFT(PBFTNode::new(config)),
        NodeType::Zyzzyva => SimNode::Zyzzyva(ZyzzyvaNode::new(config)),
        NodeType::RBFT => {
            proof {
                assert(false);
            }
            SimNode::Dummy(DummyNode::new(config))
        },
    }
}

} // verus!
