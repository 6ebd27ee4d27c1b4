//! Configuration records for the simulation and its nodes, the request
//! batch generator, and the rendering of result lines.

use vstd::prelude::*;

use crate::event::{Event, EventType, Message, Reception};
use crate::node::NodeType;
use crate::pbft::messages::ClientRequest as PBFTClientRequest;
use crate::pbft::messages::PBFTMessage;
use crate::record::{decimal_digits, node_chars};
use crate::record::{u32_to_decimal, u64_to_decimal};
use crate::time::Time;
use crate::zyzzyva::messages::ClientRequest as ZyzzyvaClientRequest;
use crate::zyzzyva::messages::ZyzzyvaMessage;
use crate::zyzzyva::state::CLIENT_ID;

verus! {

/// Settings a simulation is initialized from.
pub struct SimulationConfig {
    pub node_type: NodeType,
    pub number_of_nodes: u32,
    pub next_id: u32,
}

impl SimulationConfig {
    /// A fresh configuration; node ids are handed out starting at 1.
    pub fn new(node_type: NodeType, number_of_nodes: u32) -> (c: SimulationConfig)
        ensures
            c.node_type == node_type,
            c.number_of_nodes == number_of_nodes,
            c.next_id == 0,
    {
        SimulationConfig { node_type, number_of_nodes, next_id: 0 }
    }

    /// Replaces the cluster size.
    pub fn number_of_nodes(self, number_of_nodes: u32) -> (c: SimulationConfig)
        ensures
            c.node_type == self.node_type,
            c.number_of_nodes == number_of_nodes,
            c.next_id == self.next_id,
    {
        SimulationConfig { number_of_nodes, ..self }
    }

    /// Hands out the id for the next node.
    fn increment_next_id(&mut self) -> (id: u32)
        requires
            old(self).next_id < u32::MAX,
        ensures
            id == old(self).next_id + 1,
            final (self).next_id == id,
            final (self).node_type == old(self).node_type,
            final (self).number_of_nodes == old(self).number_of_nodes,
    {
        self.next_id = self.next_id + 1;
        self.next_id
    }

    /// Creates the configuration of the next node, with a fresh id.
    pub fn create_node_config(&mut self) -> (nc: NodeConfig)
        requires
            old(self).next_id < u32::MAX,
        ensures
            nc.node_type == old(self).node_type,
            nc.id == old(self).next_id + 1,
            nc.number_of_nodes == old(self).number_of_nodes,
            final (self).next_id == nc.id,
            final (self).node_type == old(self).node_type,
            final (self).number_of_nodes == old(self).number_of_nodes,
    {
        NodeConfig {
            node_type: self.node_type,
            id: self.increment_next_id(),
            number_of_nodes: self.number_of_nodes,
        }
    }
}

/// Settings a single node is initialized from.
pub struct NodeConfig {
    pub node_type: NodeType,
    pub id: u32,
    pub number_of_nodes: u32,
}

/// A batch of client requests: how many, and how far apart in virtual
/// time.
#[derive(Debug, PartialEq, Eq, Structural, Clone, Copy)]
pub struct RequestBatchConfig {
    pub number: u32,
    pub interval: u32,
}

/// The reception events a request batch materialises into: `number`
/// client requests with fresh operation ids, spaced `interval`
/// milliseconds apart, addressed to node 1 for PBFT and to the client
/// node for Zyzzyva.
pub open spec fn batch_events(
    number: u32,
    interval: u32,
    counter0: u64,
    time: Time,
    node_type: NodeType,
) -> Seq<Event> {
    Seq::new(
        number as nat,
        |i: int|
            Event {
                time: Time { milli_seconds: (time@ + i * interval) as u64 },
                event_type: EventType::Reception(
                    Reception {
                        id: if node_type is Zyzzyva {
                            CLIENT_ID
                        } else {
                            1u32
                        },
                        message: if node_type is Zyzzyva {
                            Message::Zyzzyva(
                                ZyzzyvaMessage::ClientRequest(
                                    ZyzzyvaClientRequest {
                                        operation: (counter0 + i) as u32,
                                        sender_id: 0u32,
                                    },
                                ),
                            )
                        } else {
                            Message::PBFT(
                                PBFTMessage::ClientRequest(
                                    PBFTClientRequest {
                                        operation: (counter0 + i) as u32,
                                        sender_id: 31415u32,
                                    },
                                ),
                            )
                        },
                    },
                ),
            },
    )
}

impl RequestBatchConfig {
    pub fn new(number: u32, interval: u32) -> (c: RequestBatchConfig)
        ensures
            c == (RequestBatchConfig { number, interval }),
    {
        RequestBatchConfig { number, interval }
    }

    /// Materialises the batch into reception events under the
    /// scheduler's clock, handing out one fresh operation id per
    /// request. Only the PBFT and Zyzzyva node kinds take client
    /// requests.
    pub fn create_events(
        &self,
        request_id_counter: &mut u64,
        time: Time,
        node_type: NodeType,
    ) -> (r: Vec<Event>)
        requires
            node_type is PBFT || node_type is Zyzzyva,
            *old(request_id_counter) + self.number <= u64::MAX,
            self.number > 0 ==> (self.number - 1) * self.interval <= u32::MAX,
            time@ + (if self.number > 0 {
                (self.number - 1) * self.interval
            } else {
                0
            }) <= u64::MAX,
        ensures
            *final (request_id_counter) == *old(request_id_counter) + self.number,
            r@ == batch_events(
                self.number,
                self.interval,
                *old(request_id_counter),
                time,
                node_type,
            ),
    {
        let ghost counter0 = *request_id_counter;
        let mut result: Vec<Event> = Vec::new();

        let mut counter: u64 = 1;
        while counter <= self.number as u64
            invariant
                node_type is PBFT || node_type is Zyzzyva,
                1 <= counter <= self.number as u64 + 1,
                self.number > 0 ==> (self.number - 1) * self.interval <= u32::MAX,
                time@ + (if self.number > 0 {
                    (self.number - 1) * self.interval
                } else {
                    0
                }) <= u64::MAX,
                counter0 + self.number <= u64::MAX,
                *request_id_counter == counter0 + counter - 1,
                result@.len() == counter - 1,
                forall|j: int|
                    0 <= j < counter - 1 ==> result@[j] == batch_events(
                        self.number,
                        self.interval,
                        counter0,
                        time,
                        node_type,
                    )[j],
            decreases self.number as u64 + 1 - counter,
        {
            let c1: u32 = (counter - 1) as u32;
            proof {
                assert(c1 * self.interval <= (self.number - 1) * self.interval) by (
                nonlinear_arith)
                    requires
                        0 <= c1 <= self.number - 1,
                        self.interval >= 0,
                ;
            }
            let delta: u32 = c1 * self.interval;
            let new_time = time.add_milli(delta as u64);
            let operation: u32 = #[verifier::truncate] (*request_id_counter as u32);
            let message = match node_type {
                NodeType::Zyzzyva => Message::Zyzzyva(
                    ZyzzyvaMessage::ClientRequest(
                        ZyzzyvaClientRequest { sender_id: 0, operation },
                    ),
                ),
                _ => Message::PBFT(
                    PBFTMessage::ClientRequest(PBFTClientRequest { sender_id: 31415, operation }),
                ),
            };
            let target: u32 = match node_type {
                NodeType::Zyzzyva => CLIENT_ID,
                _ => 1,
            };
            result.push(Event::new_reception(target, message, new_time));
            *request_id_counter = *request_id_counter + 1;
            counter = counter + 1;
        }
        proof {
            assert(result@ =~= batch_events(self.number, self.interval, counter0, time, node_type));
        }
        result
    }
}

/// Renders one line of the result stream from an already-rendered
/// message column.
pub fn log_result(time: Time, node_id: Option<u32>, message: &str) -> (line: String)
    ensures
        line@ == decimal_digits(time@ as nat) + ";"@ + node_chars(node_id) + ";"@ + message@,
{
    let mut line = u64_to_decimal(time.milli());
    line.append(";");
    match node_id {
        Some(id) => {
            let t = u32_to_decimal(id);
            line.append(t.as_str());
        },
        None => {
            line.append("-1");
        },
    }
    line.append(";");
    line.append(message);
    proof {
        assert(line@ =~= decimal_digits(time@ as nat) + ";"@ + node_chars(node_id) + ";"@
            + message@);
    }
    line
}

} // verus!
