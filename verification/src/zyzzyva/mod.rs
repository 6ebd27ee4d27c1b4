//! The Zyzzyva protocol family: message catalog and replica state machine.

pub mod messages;
pub mod state;
