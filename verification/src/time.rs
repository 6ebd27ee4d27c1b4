//! The virtual-clock abstraction of the simulation.
//!
//! A `Time` is a monotonic millisecond stamp. Its ordering is reversed
//! (an earlier stamp compares greater) so that a max-first priority
//! queue hands out the earliest event first.

use vstd::prelude::*;

use crate::record::{decimal_digits, u64_to_decimal};

verus! {

/// A virtual-time stamp in milliseconds. Events in the queue are
/// prioritised by this value, with the comparison reversed.
#[derive(Clone, Copy, Debug, PartialEq, Eq, Structural, Hash)]
pub struct Time {
    pub milli_seconds: u64,
}

impl View for Time {
    type V = u64;

    open spec fn view(&self) -> u64 {
        self.milli_seconds
    }
}

impl Time {
    pub fn new(milli_seconds: u64) -> (t: Time)
        ensures
            t@ == milli_seconds,
    {
        Time { milli_seconds }
    }

    /// The stamp in milliseconds.
    pub fn milli(&self) -> (m: u64)
        ensures
            m == self@,
    {
        self.milli_seconds
    }

    /// Sum of two stamps.
    pub fn add(&self, other: Time) -> (t: Time)
        requires
            self@ + other@ <= u64::MAX,
        ensures
            t@ == self@ + other@,
    {
        Time { milli_seconds: self.milli_seconds + other.milli_seconds }
    }

    /// The stamp advanced by `milli` milliseconds.
    pub fn add_milli(&self, milli: u64) -> (t: Time)
        requires
            self@ + milli <= u64::MAX,
        ensures
            t@ == self@ + milli,
    {
        Time { milli_seconds: self.milli_seconds + milli }
    }

    /// Difference of two stamps.
    pub fn sub(&self, other: Time) -> (t: Time)
        requires
            other@ <= self@,
        ensures
            t@ == self@ - other@,
    {
        Time { milli_seconds: self.milli_seconds - other.milli_seconds }
    }

    /// The stamp moved back by `milli` milliseconds.
    pub fn sub_milli(&self, milli: u64) -> (t: Time)
        requires
            milli <= self@,
        ensures
            t@ == self@ - milli,
    {
        Time { milli_seconds: self.milli_seconds - milli }
    }

    /// The stamp rendered in decimal milliseconds.
    pub fn to_string(&self) -> (s: String)
        ensures
            s@ == decimal_digits(self@ as nat),
    {
        u64_to_decimal(self.milli_seconds)
    }
}

// The ordering is reversed on purpose: the event queue removes the
// greatest element first, and the earliest stamp must be the one
// removed.
impl PartialOrd for Time {
    fn partial_cmp(&self, other: &Self) -> (r: Option<core::cmp::Ordering>) {
        if self.milli_seconds < other.milli_seconds {
            Some(core::cmp::Ordering::Greater)
        } else if self.milli_seconds > other.milli_seconds {
            Some(core::cmp::Ordering::Less)
        } else {
            Some(core::cmp::Ordering::Equal)
        }
    }
}

impl vstd::std_specs::cmp::PartialOrdSpecImpl for Time {
    open spec fn obeys_partial_cmp_spec() -> bool {
        true
    }

    open spec fn partial_cmp_spec(&self, other: &Self) -> Option<core::cmp::Ordering> {
        if self@ < other@ {
            Some(core::cmp::Ordering::Greater)
        } else if self@ > other@ {
            Some(core::cmp::Ordering::Less)
        } else {
            Some(core::cmp::Ordering::Equal)
        }
    }
}

} // verus!
