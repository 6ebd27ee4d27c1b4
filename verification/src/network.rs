//! The network model: turns a broadcast into a delayed reception, with
//! probabilistic omission. The random draws come from the process-wide
//! generator; the routing decision itself is a pure, verified function
//! of the draws.

use vstd::prelude::*;

use crate::event::{Broadcast, Event, EventType, Reception};
use crate::time::Time;

verus! {

/// The denominator of the omission probability: an omission rate is
/// given in parts per million.
pub const OMISSION_DENOM: u64 = 1_000_000;

/// Relies on rand::random_range over a half-open integer range: the
/// result lies in the range handed to it.
#[verifier::external_body]
fn random_in_range(lo: u64, hi: u64) -> (r: u64)
    requires
        lo < hi,
    ensures
        lo <= r < hi,
{
    rand::random_range(lo..hi)
}

/// What the network does with a broadcast, given the two random draws:
/// an omitted broadcast produces nothing, a delivered one produces the
/// reception of its message at its target, delayed by a value within
/// the configured bounds.
pub open spec fn route_spec(
    omission_ppm: u32,
    delay_min: u32,
    delay_max: u32,
    time: Time,
    b: Broadcast,
    omission_draw: u64,
    delay_draw: u64,
) -> Option<Event> {
    if omission_ppm > 0 && omission_draw < omission_ppm {
        None
    } else {
        let delay: u64 = if delay_min == delay_max {
            delay_min as u64
        } else {
            delay_draw
        };
        Some(
            Event {
                time: Time { milli_seconds: (time@ + delay) as u64 },
                event_type: EventType::Reception(Reception { id: b.id_to, message: b.message }),
            },
        )
    }
}

/// The network abstraction. The omission probability is held in parts
/// per million; delays are drawn uniformly from
/// `[delay_min, delay_max)` milliseconds, or are exactly `delay_min`
/// when the bounds coincide.
#[derive(Debug)]
pub struct Network {
    /// Per-broadcast loss probability, in parts per million.
    pub omission_ppm: u32,
    /// Lower delay bound, milliseconds.
    pub delay_min: u32,
    /// Upper delay bound, milliseconds (exclusive when it differs from
    /// the lower bound).
    pub delay_max: u32,
}

impl Network {
    /// The configured bounds make sense: the omission rate is a
    /// probability, and the delay interval is not empty.
    pub open spec fn wf(&self) -> bool {
        &&& self.omission_ppm as u64 <= OMISSION_DENOM
        &&& self.delay_min <= self.delay_max
    }

    pub fn new(omission_ppm: u32, delay_min: u32, delay_max: u32) -> (n: Network)
        requires
            omission_ppm as u64 <= OMISSION_DENOM,
            delay_min <= delay_max,
        ensures
            n.wf(),
            n.omission_ppm == omission_ppm,
            n.delay_min == delay_min,
            n.delay_max == delay_max,
    {
        Network { omission_ppm, delay_min, delay_max }
    }

    /// Routes a broadcast for the two given draws; pure and total, so
    /// that every outcome of the random generator is covered.
    pub fn route(&self, time: Time, broadcast: Broadcast, omission_draw: u64, delay_draw: u64)
        -> (r: Option<Event>)
        requires
            self.wf(),
            delay_draw <= self.delay_max,
            time@ + self.delay_max <= u64::MAX,
        ensures
            r == route_spec(
                self.omission_ppm,
                self.delay_min,
                self.delay_max,
                time,
                broadcast,
                omission_draw,
                delay_draw,
            ),
    {
        if self.omission_ppm > 0 && omission_draw < self.omission_ppm as u64 {
            return None;
        }
        let delay: u64 = if self.delay_min == self.delay_max {
            self.delay_min as u64
        } else {
            delay_draw
        };
        Some(Event::new_reception(broadcast.id_to, broadcast.message, time.add_milli(delay)))
    }

    /// Handles a broadcast: with the configured probability the
    /// message is omitted and nothing happens; otherwise the target
    /// receives it after a delay within the configured bounds.
    pub fn handle_broadcast(&mut self, time: Time, broadcast: Broadcast) -> (r: Option<Event>)
        requires
            old(self).wf(),
            time@ + old(self).delay_max <= u64::MAX,
        ensures
            *final (self) == *old(self),
            exists|omission_draw: u64, delay_draw: u64|
                {
                    &&& 0 <= omission_draw < OMISSION_DENOM
                    &&& old(self).delay_min <= delay_draw <= old(self).delay_max
                    &&& r == #[trigger] route_spec(
                        old(self).omission_ppm,
                        old(self).delay_min,
                        old(self).delay_max,
                        time,
                        broadcast,
                        omission_draw,
                        delay_draw,
                    )
                },
            // whatever was drawn: either the broadcast was omitted, or
            // its target receives exactly its message, delayed within
            // bounds
            match r {
                None => true,
                Some(e) => {
                    &&& e.event_type matches EventType::Reception(rc) && rc.id == broadcast.id_to
                        && rc.message == broadcast.message
                    &&& time@ + old(self).delay_min <= e.time@ <= time@ + old(self).delay_max
                },
            },
            // without omission a broadcast is always delivered
            old(self).omission_ppm == 0 ==> r is Some,
    {
        let omission_draw = random_in_range(0, OMISSION_DENOM);
        let delay_draw = if self.delay_min < self.delay_max {
            random_in_range(self.delay_min as u64, self.delay_max as u64)
        } else {
            self.delay_min as u64
        };
        let ghost b = broadcast;
        let r = self.route(time, broadcast, omission_draw, delay_draw);
        proof {
            assert(r == route_spec(
                self.omission_ppm,
                self.delay_min,
                self.delay_max,
                time,
                b,
                omission_draw,
                delay_draw,
            ));
        }
        r
    }
}

/// Deterministic replay: with no omission and coinciding delay bounds,
/// the network's decision does not depend on the random draws at all —
/// two runs over the same broadcasts produce the same receptions.
pub proof fn lemma_route_deterministic(
    delay: u32,
    time: Time,
    b: Broadcast,
    od1: u64,
    dd1: u64,
    od2: u64,
    dd2: u64,
)
    ensures
        route_spec(0, delay, delay, time, b, od1, dd1) == route_spec(
            0,
            delay,
            delay,
            time,
            b,
            od2,
            dd2,
        ),
{
}

} // verus!
