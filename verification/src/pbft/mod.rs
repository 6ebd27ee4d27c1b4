//! The PBFT protocol family: message catalog and replica state machine.

pub mod messages;
pub mod state;
