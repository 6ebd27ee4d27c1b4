//! The Zyzzyva message catalog: speculative ordering, the client-side
//! commit certificate, and the slow-path commit exchange.

use vstd::prelude::*;

verus! {

/// The possible Zyzzyva messages.
#[verifier::ext_equal]
#[derive(Debug, PartialEq, Eq, Clone)]
pub enum ZyzzyvaMessage {
    ClientRequest(ClientRequest),
    ClientTimeout(ClientTimeout),
    OrderRequest(OrderRequest),
    SpeculativeResponse(SpeculativeResponse),
    Commit(Commit),
    LocalCommit(LocalCommit),
}

/// The client's own reminder that a request may have to fall back to
/// the slow path.
#[derive(Debug, PartialEq, Eq, Structural, Hash, Clone, Copy)]
pub struct ClientTimeout {
    pub req_id: u32,
}

impl ClientTimeout {
    pub fn new(req_id: u32) -> (m: ClientTimeout)
        ensures
            m == (ClientTimeout { req_id }),
    {
        ClientTimeout { req_id }
    }
}

/// A client request. `operation` is the stable identifier of the
/// request and the key of the per-replica log.
#[derive(Debug, PartialEq, Eq, Structural, Hash, Clone, Copy)]
pub struct ClientRequest {
    pub operation: u32,
    pub sender_id: u32,
}

impl ClientRequest {
    pub fn new(operation: u32, sender_id: u32) -> (m: ClientRequest)
        ensures
            m == (ClientRequest { operation, sender_id }),
    {
        ClientRequest { operation, sender_id }
    }
}

/// The primary's ordering message to the backups.
#[derive(Debug, PartialEq, Eq, Structural, Hash, Clone, Copy)]
pub struct OrderRequest {
    pub c_req: ClientRequest,
    pub view: u64,
    pub seq_number: u64,
    pub sender_id: u32,
}

impl OrderRequest {
    pub fn new(c_req: ClientRequest, view: u64, seq_number: u64, sender_id: u32) -> (m:
        OrderRequest)
        ensures
            m == (OrderRequest { c_req, view, seq_number, sender_id }),
    {
        OrderRequest { c_req, view, seq_number, sender_id }
    }
}

/// A replica's speculative execution response, aggregated by the
/// client into its commit certificate.
#[derive(Debug, PartialEq, Eq, Structural, Hash, Clone, Copy)]
pub struct SpeculativeResponse {
    pub c_req: ClientRequest,
    pub view: u64,
    pub seq_number: u64,
    pub sender_id: u32,
}

impl SpeculativeResponse {
    pub fn new(c_req: ClientRequest, view: u64, seq_number: u64, sender_id: u32) -> (m:
        SpeculativeResponse)
        ensures
            m == (SpeculativeResponse { c_req, view, seq_number, sender_id }),
    {
        SpeculativeResponse { c_req, view, seq_number, sender_id }
    }
}

/// The client's slow-path commit, carrying a snapshot of its
/// certificate.
#[verifier::ext_equal]
#[derive(Debug, PartialEq, Eq, Clone)]
pub struct Commit {
    pub req_id: u32,
    pub certificate: Vec<SpeculativeResponse>,
    pub sender_id: u32,
}

impl Commit {
    pub fn new(req_id: u32, certificate: Vec<SpeculativeResponse>, sender_id: u32) -> (m: Commit)
        ensures
            m == (Commit { req_id, certificate, sender_id }),
    {
        Commit { req_id, certificate, sender_id }
    }
}

/// A replica's acknowledgement of a slow-path commit.
#[derive(Debug, PartialEq, Eq, Structural, Hash, Clone, Copy)]
pub struct LocalCommit {
    pub c_req: ClientRequest,
    pub view: u64,
    pub seq_number: u64,
    pub sender_id: u32,
}

impl LocalCommit {
    pub fn new(c_req: ClientRequest, view: u64, seq_number: u64, sender_id: u32) -> (m: LocalCommit)
        ensures
            m == (LocalCommit { c_req, view, seq_number, sender_id }),
    {
        LocalCommit { c_req, view, seq_number, sender_id }
    }
}

} // verus!
