//! Discrete-event simulator for Byzantine-fault-tolerant replication
//! protocols (PBFT and Zyzzyva), with verified quorum tracking, event
//! ordering, and result records.

pub mod config;
pub mod conv;
pub mod event;
pub mod network;
pub mod node;
pub mod pbft;
pub mod record;
pub mod seqset;
pub mod simulation;
pub mod time;
pub mod zyzzyva;
