//! The PBFT message catalog: the protocol messages that replicas and
//! clients exchange. Messages are plain value types; equality is
//! structural, which is what the quorum sets deduplicate by.

use vstd::prelude::*;

verus! {

/// The possible PBFT messages sent by replicas or clients.
#[derive(Debug, PartialEq, Eq, Structural, Clone, Copy)]
pub enum PBFTMessage {
    ClientRequest(ClientRequest),
    ClientResponse(ClientResponse),
    PrePrepare(PrePrepareMessage),
    Prepare(PrepareMessage),
    Commit(CommitMessage),
}

/// A client request. `operation` is the stable identifier of the
/// request and the key of the per-replica log.
#[derive(Debug, PartialEq, Eq, Structural, Hash, Clone, Copy)]
pub struct ClientRequest {
    pub operation: u32,
    pub sender_id: u32,
}

/// A client response, sent by a replica after committing locally.
#[derive(Debug, PartialEq, Eq, Structural, Hash, Clone, Copy)]
pub struct ClientResponse {
    pub result: u32,
    pub sender_id: u32,
}

/// A Pre-Prepare message, sent by the primary.
#[derive(Debug, PartialEq, Eq, Structural, Hash, Clone, Copy)]
pub struct PrePrepareMessage {
    pub c_req: ClientRequest,
    pub view: u64,
    pub seq_number: u64,
    pub sender_id: u32,
}

/// A Prepare message, sent by backups.
#[derive(Debug, PartialEq, Eq, Structural, Hash, Clone, Copy)]
pub struct PrepareMessage {
    pub c_req: ClientRequest,
    pub view: u64,
    pub seq_number: u64,
    pub sender_id: u32,
}

/// A Commit message, sent by the primary and backups.
#[derive(Debug, PartialEq, Eq, Structural, Hash, Clone, Copy)]
pub struct CommitMessage {
    pub c_req: ClientRequest,
    pub view: u64,
    pub seq_number: u64,
    pub sender_id: u32,
}

impl ClientRequest {
    pub fn new(operation: u32, sender_id: u32) -> (m: ClientRequest)
        ensures
            m == (ClientRequest { operation, sender_id }),
    {
        ClientRequest { operation, sender_id }
    }
}

impl PrePrepareMessage {
    pub fn new(c_req: ClientRequest, view: u64, seq_number: u64, sender_id: u32) -> (m:
        PrePrepareMessage)
        ensures
            m == (PrePrepareMessage { c_req, view, seq_number, sender_id }),
    {
        PrePrepareMessage { c_req, view, seq_number, sender_id }
    }
}

impl PrepareMessage {
    pub fn new(c_req: ClientRequest, view: u64, seq_number: u64, sender_id: u32) -> (m:
        PrepareMessage)
        ensures
            m == (PrepareMessage { c_req, view, seq_number, sender_id }),
    {
        PrepareMessage { c_req, view, seq_number, sender_id }
    }
}

impl CommitMessage {
    pub fn new(c_req: ClientRequest, view: u64, seq_number: u64, sender_id: u32) -> (m:
        CommitMessage)
        ensures
            m == (CommitMessage { c_req, view, seq_number, sender_id }),
    {
        CommitMessage { c_req, view, seq_number, sender_id }
    }
}

} // verus!
