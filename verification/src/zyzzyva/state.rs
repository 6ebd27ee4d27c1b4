//! The Zyzzyva replica state machine: the speculative-execution path,
//! the client-side commit certificate with its fast and slow
//! completion paths, the client timeout fallback, and the
//! garbage-collection discipline shared with the PBFT core.

use vstd::prelude::*;

use crate::record::{Phase, Record, RecordBody};
use crate::seqset::{contains_u32, lemma_prefix_refl, lemma_prefix_set_insert,
    lemma_set_insert_contains, lemma_set_insert_no_duplicates, set_insert};
use crate::time::Time;
use crate::zyzzyva::messages::{ClientRequest, ClientTimeout, Commit, LocalCommit, OrderRequest,
    SpeculativeResponse, ZyzzyvaMessage};

verus! {

/// The node id the simulation reserves for the Zyzzyva client.
pub const CLIENT_ID: u32 = 2;

/// The output produced by a node: messages to hand to the host, each
/// with the id of its recipient.
pub type Output = Vec<(u32, ZyzzyvaMessage)>;

/// The roles a Zyzzyva node can have.
#[derive(Debug, PartialEq, Eq, Structural, Clone, Copy)]
pub enum Role {
    Client,
    Primary,
    Backup,
}

/// One entry of a node's log: the request with the view and sequence
/// number assigned to it, the client-side commit certificate, the
/// acknowledgements of a slow-path commit, and the four monotonic
/// predicates.
#[derive(Debug)]
pub struct LogEntry {
    /// The request this entry is about.
    pub c_req: ClientRequest,
    /// View number assigned to this request.
    pub view: u64,
    /// Sequence number assigned to this request.
    pub seq_number: u64,
    /// The speculative responses the client has collected,
    /// deduplicated by structural equality.
    pub commit_certificate: Vec<SpeculativeResponse>,
    /// The ids of replicas that acknowledged a slow-path commit.
    pub local_commits: Vec<u32>,
    /// True once the request was speculatively executed.
    pub speculative_execution: bool,
    /// True once a replica committed the request on the slow path.
    pub committed_local: bool,
    /// True once the request completed (reserved; completion is
    /// recorded in the result stream and the entry garbage-collected).
    pub completed: bool,
    /// True once the client's timeout for this request fired; set
    /// exclusively by the client's timeout handler.
    pub timed_out: bool,
}

impl LogEntry {
    /// The vote sets hold no duplicates.
    pub open spec fn wf(&self) -> bool {
        &&& self.commit_certificate@.no_duplicates()
        &&& self.local_commits@.no_duplicates()
    }

    pub fn new(c_req: ClientRequest, view: u64, seq_number: u64) -> (e: LogEntry)
        ensures
            e.c_req == c_req,
            e.view == view,
            e.seq_number == seq_number,
            e.commit_certificate@ == Seq::<SpeculativeResponse>::empty(),
            e.local_commits@ == Seq::<u32>::empty(),
            !e.speculative_execution,
            !e.committed_local,
            !e.completed,
            !e.timed_out,
    {
        let e = LogEntry {
            c_req,
            view,
            seq_number,
            commit_certificate: Vec::new(),
            local_commits: Vec::new(),
            speculative_execution: false,
            committed_local: false,
            completed: false,
            timed_out: false,
        };
        proof {
            assert(e.commit_certificate@ =~= Seq::<SpeculativeResponse>::empty());
            assert(e.local_commits@ =~= Seq::<u32>::empty());
        }
        e
    }
}

/// The mathematical content of a log entry.
#[verifier::ext_equal]
pub ghost struct EntryModel {
    pub c_req: ClientRequest,
    pub view: u64,
    pub seq_number: u64,
    pub commit_certificate: Seq<SpeculativeResponse>,
    pub local_commits: Seq<u32>,
    pub speculative_execution: bool,
    pub committed_local: bool,
    pub completed: bool,
    pub timed_out: bool,
}

/// The mathematical content of a log entry.
pub open spec fn model(e: LogEntry) -> EntryModel {
    EntryModel {
        c_req: e.c_req,
        view: e.view,
        seq_number: e.seq_number,
        commit_certificate: e.commit_certificate@,
        local_commits: e.local_commits@,
        speculative_execution: e.speculative_execution,
        committed_local: e.committed_local,
        completed: e.completed,
        timed_out: e.timed_out,
    }
}

/// The content of a just-created log entry.
pub open spec fn fresh_model(c_req: ClientRequest, view: u64, seq_number: u64) -> EntryModel {
    EntryModel {
        c_req,
        view,
        seq_number,
        commit_certificate: Seq::empty(),
        local_commits: Seq::empty(),
        speculative_execution: false,
        committed_local: false,
        completed: false,
        timed_out: false,
    }
}

/// Whether the log holds an entry keyed by `op`.
pub open spec fn log_has(log: Seq<(u32, LogEntry)>, op: u32) -> bool {
    exists|i: int| 0 <= i < log.len() && log[i].0 == op
}

/// The index of the entry keyed by `op`.
pub open spec fn log_idx(log: Seq<(u32, LogEntry)>, op: u32) -> int {
    choose|i: int| 0 <= i < log.len() && log[i].0 == op
}

/// The entry keyed by `op`.
pub open spec fn log_get(log: Seq<(u32, LogEntry)>, op: u32) -> LogEntry {
    log[log_idx(log, op)].1
}

/// Log well-formedness: keys are unique, each entry is well-formed,
/// and each entry is keyed by its own request's operation.
pub open spec fn log_wf(log: Seq<(u32, LogEntry)>) -> bool {
    &&& forall|i: int, j: int|
        0 <= i < log.len() && 0 <= j < log.len() && i != j ==> log[i].0 != log[j].0
    &&& forall|i: int|
        0 <= i < log.len() ==> (#[trigger] log[i]).1.wf() && log[i].1.c_req.operation == log[i].0
}

/// In a well-formed log, any index holding `op` is the index of `op`.
pub proof fn lemma_log_idx(log: Seq<(u32, LogEntry)>, op: u32, i: int)
    requires
        log_wf(log),
        0 <= i < log.len(),
        log[i].0 == op,
    ensures
        log_has(log, op),
        log_idx(log, op) == i,
{
    assert(log_has(log, op));
    let j = log_idx(log, op);
    assert(0 <= j < log.len() && log[j].0 == op);
    if i != j {
        assert(log[i].0 != log[j].0);
    }
}

/// A broadcast of one message to every peer, in peer order.
pub open spec fn broadcast_to_peers(peers: Seq<u32>, m: ZyzzyvaMessage) -> Seq<
    (u32, ZyzzyvaMessage),
> {
    Seq::new(peers.len(), |i: int| (peers[i], m))
}

/// Peer lists: no duplicates, every peer a valid replica id other than
/// one's own and other than the client, and complete over the cluster.
pub open spec fn peers_wf(peers: Seq<u32>, id: u32, n: u32) -> bool {
    &&& peers.no_duplicates()
    &&& forall|j: int|
        0 <= j < peers.len() ==> 1 <= #[trigger] peers[j] <= n + 1 && peers[j] != id && peers[j]
            != CLIENT_ID
    &&& forall|p: u32| 1 <= p <= n + 1 && p != id && p != CLIENT_ID ==> peers.contains(p)
}

/// Builds the peer list 1..=n+1 without one's own id and without the
/// client's, in ascending order.
fn build_peers(id: u32, n: u32) -> (peers: Vec<u32>)
    requires
        n < u32::MAX,
    ensures
        peers_wf(peers@, id, n),
{
    let mut peers: Vec<u32> = Vec::new();
    let mut p: u64 = 1;
    while p <= n as u64 + 1
        invariant
            n < u32::MAX,
            1 <= p <= n as u64 + 2,
            peers@.no_duplicates(),
            forall|j: int|
                0 <= j < peers@.len() ==> 1 <= #[trigger] peers@[j] < p && peers@[j] != id
                    && peers@[j] != CLIENT_ID,
            forall|q: u32| 1 <= q < p && q != id && q != CLIENT_ID ==> peers@.contains(q),
        decreases n as u64 + 2 - p,
    {
        if p != id as u64 && p != CLIENT_ID as u64 {
            let pd = p as u32;
            let ghost prev = peers@;
            proof {
                if prev.contains(pd) {
                    let j = choose|j: int| 0 <= j < prev.len() && prev[j] == pd;
                    assert(prev[j] < p);
                }
                lemma_set_insert_no_duplicates(prev, pd);
            }
            peers.push(pd);
            proof {
                assert(peers@ == set_insert(prev, pd));
                assert forall|q: u32|
                    1 <= q < p + 1 && q != id && q != CLIENT_ID implies peers@.contains(q) by {
                    if q == pd {
                        assert(peers@[prev.len() as int] == pd);
                    } else {
                        assert(prev.contains(q));
                        let j = choose|j: int| 0 <= j < prev.len() && prev[j] == q;
                        assert(peers@[j] == q);
                    }
                }
            }
        }
        p = p + 1;
    }
    peers
}

/// Looks an operation id up in a log.
fn find_log_index(log: &Vec<(u32, LogEntry)>, op: u32) -> (r: Option<usize>)
    ensures
        match r {
            Some(i) => i < log@.len() && log@[i as int].0 == op,
            None => !log_has(log@, op),
        },
{
    let mut i: usize = 0;
    while i < log.len()
        invariant
            0 <= i <= log@.len(),
            forall|j: int| 0 <= j < i ==> log@[j].0 != op,
        decreases log@.len() - i,
    {
        if log[i].0 == op {
            return Some(i);
        }
        i = i + 1;
    }
    None
}

/// Whether a commit certificate already holds the vote `m`.
fn contains_spec_response(v: &Vec<SpeculativeResponse>, m: SpeculativeResponse) -> (r: bool)
    ensures
        r == v@.contains(m),
{
    let mut i: usize = 0;
    while i < v.len()
        invariant
            0 <= i <= v@.len(),
            forall|j: int| 0 <= j < i ==> v@[j] != m,
        decreases v@.len() - i,
    {
        if v[i] == m {
            return true;
        }
        i = i + 1;
    }
    false
}

/// A copy of a commit certificate, used as the snapshot a slow-path
/// Commit carries.
fn clone_certificate(v: &Vec<SpeculativeResponse>) -> (r: Vec<SpeculativeResponse>)
    ensures
        r@ == v@,
{
    let mut r: Vec<SpeculativeResponse> = Vec::new();
    let mut i: usize = 0;
    while i < v.len()
        invariant
            0 <= i <= v@.len(),
            r@ =~= v@.subrange(0, i as int),
        decreases v@.len() - i,
    {
        r.push(v[i]);
        proof {
            assert(r@ =~= v@.subrange(0, i + 1));
        }
        i = i + 1;
    }
    proof {
        assert(r@ =~= v@);
    }
    r
}

/// A copy of a message without a certificate inside; those are the
/// only ones broadcast through this path.
fn clone_plain_message(m: &ZyzzyvaMessage) -> (r: ZyzzyvaMessage)
    requires
        !(m is Commit),
    ensures
        r == *m,
{
    match m {
        ZyzzyvaMessage::ClientRequest(x) => ZyzzyvaMessage::ClientRequest(*x),
        ZyzzyvaMessage::ClientTimeout(x) => ZyzzyvaMessage::ClientTimeout(*x),
        ZyzzyvaMessage::OrderRequest(x) => ZyzzyvaMessage::OrderRequest(*x),
        ZyzzyvaMessage::SpeculativeResponse(x) => ZyzzyvaMessage::SpeculativeResponse(*x),
        ZyzzyvaMessage::Commit(x) => {
            proof {
                assert(false);
            }
            ZyzzyvaMessage::ClientTimeout(ClientTimeout { req_id: x.req_id })
        },
        ZyzzyvaMessage::LocalCommit(x) => ZyzzyvaMessage::LocalCommit(*x),
    }
}

/// An output that broadcasts `msg_out` to all other replicas.
fn create_peer_broadcast_output(msg_out: &ZyzzyvaMessage, peers: &Vec<u32>) -> (out: Output)
    requires
        !(msg_out is Commit),
    ensures
        out@ == broadcast_to_peers(peers@, *msg_out),
{
    let mut out: Output = Vec::new();
    let mut i: usize = 0;
    while i < peers.len()
        invariant
            !(msg_out is Commit),
            0 <= i <= peers@.len(),
            out@.len() == i,
            forall|j: int| 0 <= j < i ==> out@[j] == (peers@[j], *msg_out),
        decreases peers@.len() - i,
    {
        let m = clone_plain_message(msg_out);
        out.push((peers[i], m));
        i = i + 1;
    }
    proof {
        assert(out@ =~= broadcast_to_peers(peers@, *msg_out));
    }
    out
}

/// The state a Zyzzyva node needs: replica or client, the per-request
/// log, and the garbage-collection set. The single entry point for
/// protocol traffic is `handle_message`.
#[derive(Debug)]
pub struct State {
    /// This node's id.
    pub id: u32,
    /// The per-request log, keyed by the request's operation id.
    pub log: Vec<(u32, LogEntry)>,
    /// Operation ids of garbage-collected requests, kept so the node
    /// drops all later messages about them.
    pub cl_reqs: Vec<u32>,
    /// The number of replicas: the cluster is configured with one node
    /// more, which acts as the client.
    pub num_of_nodes: u32,
    /// The view the node currently operates in; this core has no view
    /// change, so it stays at its initial value.
    pub current_view: u64,
    /// Used only by the primary, to assign the next sequence number.
    pub next_seq_num: u64,
    /// The node's role in the cluster.
    pub role: Role,
    /// The ids of the other replicas (the client is not a peer).
    pub peers: Vec<u32>,
    /// The id of the client node.
    pub client_id: u32,
    /// The minimal quorum size, `2f + 1` with `f = (n - 1) / 3` over
    /// the replica count `n`.
    pub quorum_size: usize,
    /// The result records this node has emitted, in order.
    pub results: Vec<Record>,
}

/// The operation id a message is about.
pub open spec fn message_operation(m: ZyzzyvaMessage) -> u32 {
    match m {
        ZyzzyvaMessage::ClientRequest(x) => x.operation,
        ZyzzyvaMessage::ClientTimeout(x) => x.req_id,
        ZyzzyvaMessage::OrderRequest(x) => x.c_req.operation,
        ZyzzyvaMessage::SpeculativeResponse(x) => x.c_req.operation,
        ZyzzyvaMessage::Commit(x) => x.req_id,
        ZyzzyvaMessage::LocalCommit(x) => x.c_req.operation,
    }
}

/// Which messages a node ignores outright: LocalCommit,
/// SpeculativeResponse and OrderRequest for an operation it has
/// already garbage-collected.
pub open spec fn can_ignore_spec(s: State, m: ZyzzyvaMessage) -> bool {
    match m {
        ZyzzyvaMessage::LocalCommit(x) => s.cl_reqs@.contains(x.c_req.operation),
        ZyzzyvaMessage::SpeculativeResponse(x) => s.cl_reqs@.contains(x.c_req.operation),
        ZyzzyvaMessage::OrderRequest(x) => s.cl_reqs@.contains(x.c_req.operation),
        _ => false,
    }
}

/// The message arrivals the protocol treats as unreachable: they
/// signal harness misconfiguration, and a runner terminates on them. A backup never receives a client request; only the client
/// receives timeouts and speculative responses, and only for requests
/// it issued; a backup receives an order request only once per
/// operation; the client never receives a Commit, and a Commit for an
/// unknown operation must carry a non-empty certificate; a LocalCommit
/// arrives only for a stored request.
pub open spec fn protocol_violation(s: State, m: ZyzzyvaMessage) -> bool {
    match m {
        ZyzzyvaMessage::ClientRequest(x) => s.role is Backup,
        ZyzzyvaMessage::ClientTimeout(x) => !(s.role is Client),
        ZyzzyvaMessage::OrderRequest(x) => !(s.role is Backup) || log_has(
            s.log@,
            x.c_req.operation,
        ),
        ZyzzyvaMessage::SpeculativeResponse(x) => !(s.role is Client) || !log_has(
            s.log@,
            x.c_req.operation,
        ),
        ZyzzyvaMessage::Commit(x) => s.role is Client || (!log_has(s.log@, x.req_id)
            && x.certificate@.len() == 0),
        ZyzzyvaMessage::LocalCommit(x) => !log_has(s.log@, x.c_req.operation),
    }
}

/// The configuration of a node never changes while it handles
/// messages.
pub open spec fn state_frame(pre: State, post: State) -> bool {
    &&& post.id == pre.id
    &&& post.num_of_nodes == pre.num_of_nodes
    &&& post.current_view == pre.current_view
    &&& post.role == pre.role
    &&& post.peers@ == pre.peers@
    &&& post.client_id == pre.client_id
    &&& post.quorum_size == pre.quorum_size
}

/// One entry grown from another: the predicates never revert and the
/// vote sets only gain members.
pub open spec fn entry_monotone(a: EntryModel, b: EntryModel) -> bool {
    &&& a.speculative_execution ==> b.speculative_execution
    &&& a.committed_local ==> b.committed_local
    &&& a.completed ==> b.completed
    &&& a.timed_out ==> b.timed_out
    &&& a.commit_certificate.is_prefix_of(b.commit_certificate)
    &&& a.local_commits.is_prefix_of(b.local_commits)
}

/// Quorum monotonicity: an entry's predicates never revert, its vote
/// sets only grow, and an entry only ever leaves the log for the set
/// of garbage-collected requests; that set itself only grows.
pub open spec fn state_monotone(pre: State, post: State) -> bool {
    &&& forall|op: u32| #![auto] pre.cl_reqs@.contains(op) ==> post.cl_reqs@.contains(op)
    &&& forall|op: u32|
        #![auto]
        log_has(pre.log@, op) ==> {
            ||| (log_has(post.log@, op) && entry_monotone(
                model(log_get(pre.log@, op)),
                model(log_get(post.log@, op)),
            ))
            ||| post.cl_reqs@.contains(op)
        }
}

/// Two node states with the same mathematical content.
pub open spec fn same_state(a: State, b: State) -> bool {
    &&& state_frame(a, b)
    &&& b.next_seq_num == a.next_seq_num
    &&& b.cl_reqs@ == a.cl_reqs@
    &&& b.results@ == a.results@
    &&& b.log@.len() == a.log@.len()
    &&& forall|i: int|
        0 <= i < a.log@.len() ==> (#[trigger] b.log@[i]).0 == a.log@[i].0 && model(b.log@[i].1)
            == model(a.log@[i].1)
}

/// The log after the entry for `op` was replaced by one with content
/// `em`: same keys, same entries elsewhere.
pub open spec fn log_entry_updated(
    pre: Seq<(u32, LogEntry)>,
    post: Seq<(u32, LogEntry)>,
    op: u32,
    em: EntryModel,
) -> bool {
    &&& post.len() == pre.len()
    &&& forall|i: int| 0 <= i < pre.len() && i != log_idx(pre, op) ==> post[i] == pre[i]
    &&& forall|i: int| 0 <= i < pre.len() ==> (#[trigger] post[i]).0 == pre[i].0
    &&& log_has(post, op)
    &&& model(log_get(post, op)) == em
}

/// The log after a new entry for `op` with content `em` was appended.
pub open spec fn log_entry_added(
    pre: Seq<(u32, LogEntry)>,
    post: Seq<(u32, LogEntry)>,
    op: u32,
    em: EntryModel,
) -> bool {
    &&& post.len() == pre.len() + 1
    &&& forall|i: int| 0 <= i < pre.len() ==> post[i] == pre[i]
    &&& post[pre.len() as int].0 == op
    &&& model(post[pre.len() as int].1) == em
}

/// What the slow-path Commit broadcast looks like: each peer, in peer
/// order, receives a Commit carrying the operation id, a snapshot of
/// the client's certificate, and the client's own id.
pub open spec fn commit_broadcast_output(
    out: Seq<(u32, ZyzzyvaMessage)>,
    peers: Seq<u32>,
    op: u32,
    cert: Seq<SpeculativeResponse>,
    id: u32,
) -> bool {
    &&& out.len() == peers.len()
    &&& forall|j: int|
        0 <= j < out.len() ==> (#[trigger] out[j]).0 == peers[j] && (out[j].1 matches
        ZyzzyvaMessage::Commit(c) && c.req_id == op && c.certificate@ == cert && c.sender_id == id)
}

/// Builds the slow-path Commit broadcast, one certificate snapshot per
/// peer.
fn create_commit_broadcast(op: u32, cert: &Vec<SpeculativeResponse>, id: u32, peers: &Vec<u32>)
    -> (out: Output)
    ensures
        commit_broadcast_output(out@, peers@, op, cert@, id),
{
    let mut out: Output = Vec::new();
    let mut i: usize = 0;
    while i < peers.len()
        invariant
            0 <= i <= peers@.len(),
            out@.len() == i,
            forall|j: int|
                0 <= j < i ==> (#[trigger] out@[j]).0 == peers@[j] && (out@[j].1 matches
                ZyzzyvaMessage::Commit(c) && c.req_id == op && c.certificate@ == cert@
                    && c.sender_id == id),
        decreases peers@.len() - i,
    {
        let m = ZyzzyvaMessage::Commit(
            Commit { req_id: op, certificate: clone_certificate(cert), sender_id: id },
        );
        out.push((peers[i], m));
        i = i + 1;
    }
    out
}

/// What handling a client request does. The client (which receives the
/// request from the simulation) opens its own entry, forwards a real
/// request to the primary, and schedules its timeout. The primary
/// assigns the next sequence number, executes speculatively — opening
/// an entry already marked executed and emitting a
/// `speculative_commit` record — answers the client with a
/// SpeculativeResponse and broadcasts an OrderRequest to the backups.
pub open spec fn client_request_post(
    pre: State,
    post: State,
    m: ClientRequest,
    time: Time,
    r: Option<Output>,
) -> bool {
    let op = m.operation;
    match pre.role {
        Role::Client => {
            let request = ClientRequest { operation: op, sender_id: pre.id };
            let em = fresh_model(request, 0, 0);
            &&& if log_has(pre.log@, op) {
                log_entry_updated(pre.log@, post.log@, op, em)
            } else {
                log_entry_added(pre.log@, post.log@, op, em)
            }
            &&& post.results@ == pre.results@
            &&& post.cl_reqs@ == pre.cl_reqs@
            &&& post.next_seq_num == pre.next_seq_num
            &&& (r matches Some(v) && v@ == seq![
                (
                    ((pre.current_view % (pre.num_of_nodes as u64)) as u32),
                    ZyzzyvaMessage::ClientRequest(request),
                ),
                (pre.id, ZyzzyvaMessage::ClientTimeout(ClientTimeout { req_id: op })),
            ])
        },
        Role::Primary => {
            let seq1 = (pre.next_seq_num + 1) as u64;
            let em = EntryModel {
                c_req: m,
                view: pre.current_view,
                seq_number: seq1,
                commit_certificate: Seq::empty(),
                local_commits: Seq::empty(),
                speculative_execution: true,
                committed_local: false,
                completed: false,
                timed_out: false,
            };
            &&& if log_has(pre.log@, op) {
                log_entry_updated(pre.log@, post.log@, op, em)
            } else {
                log_entry_added(pre.log@, post.log@, op, em)
            }
            &&& post.results@ == pre.results@.push(
                Record {
                    time,
                    node_id: Some(pre.id),
                    body: RecordBody::Progress { operation: op, phase: Phase::SpeculativeCommit },
                },
            )
            &&& post.cl_reqs@ == pre.cl_reqs@
            &&& post.next_seq_num == seq1
            &&& (r matches Some(v) && v@ == seq![
                (
                    CLIENT_ID,
                    ZyzzyvaMessage::SpeculativeResponse(
                        SpeculativeResponse {
                            c_req: m,
                            view: pre.current_view,
                            seq_number: seq1,
                            sender_id: pre.id,
                        },
                    ),
                ),
            ] + broadcast_to_peers(
                pre.peers@,
                ZyzzyvaMessage::OrderRequest(
                    OrderRequest {
                        c_req: m,
                        view: pre.current_view,
                        seq_number: seq1,
                        sender_id: pre.id,
                    },
                ),
            ))
        },
        Role::Backup => false,
    }
}

/// What handling an OrderRequest does, at a backup that has no entry
/// for the operation yet: execute speculatively — open the entry
/// marked executed, emit a `speculative_commit` record — and answer
/// the client with a SpeculativeResponse.
pub open spec fn order_request_post(
    pre: State,
    post: State,
    m: OrderRequest,
    time: Time,
    r: Option<Output>,
) -> bool {
    let op = m.c_req.operation;
    let em = EntryModel {
        c_req: m.c_req,
        view: m.view,
        seq_number: m.seq_number,
        commit_certificate: Seq::empty(),
        local_commits: Seq::empty(),
        speculative_execution: true,
        committed_local: false,
        completed: false,
        timed_out: false,
    };
    &&& log_entry_added(pre.log@, post.log@, op, em)
    &&& post.results@ == pre.results@.push(
        Record {
            time,
            node_id: Some(pre.id),
            body: RecordBody::Progress { operation: op, phase: Phase::SpeculativeCommit },
        },
    )
    &&& post.cl_reqs@ == pre.cl_reqs@
    &&& post.next_seq_num == pre.next_seq_num
    &&& (r matches Some(v) && v@ == seq![
        (
            CLIENT_ID,
            ZyzzyvaMessage::SpeculativeResponse(
                SpeculativeResponse {
                    c_req: m.c_req,
                    view: m.view,
                    seq_number: m.seq_number,
                    sender_id: pre.id,
                },
            ),
        ),
    ])
}

/// What handling a SpeculativeResponse does, at the client: a timed-out
/// request accepts no more responses; otherwise the response joins the
/// commit certificate. When the certificate reaches `quorum_size`, a
/// `commit_certificate` record is emitted; when it reaches the full
/// replica count, the fast path completes — a `completed` record — and
/// the entry is garbage-collected.
pub open spec fn speculative_response_post(
    pre: State,
    post: State,
    m: SpeculativeResponse,
    time: Time,
    r: Option<Output>,
) -> bool {
    let op = m.c_req.operation;
    let e0 = model(log_get(pre.log@, op));
    if e0.timed_out {
        &&& post == pre
        &&& r is None
    } else {
        let cert1 = set_insert(e0.commit_certificate, m);
        let rq: Seq<Record> = if cert1.len() == pre.quorum_size {
            seq![
                Record {
                    time,
                    node_id: Some(pre.id),
                    body: RecordBody::Progress { operation: op, phase: Phase::CommitCertificate },
                },
            ]
        } else {
            Seq::empty()
        };
        let rc: Seq<Record> = if cert1.len() == pre.num_of_nodes {
            seq![
                Record {
                    time,
                    node_id: Some(pre.id),
                    body: RecordBody::Progress { operation: op, phase: Phase::Completed },
                },
            ]
        } else {
            Seq::empty()
        };
        &&& post.results@ == pre.results@ + rq + rc
        &&& if cert1.len() == pre.num_of_nodes {
            &&& post.log@ == pre.log@.remove(log_idx(pre.log@, op))
            &&& post.cl_reqs@ == set_insert(pre.cl_reqs@, op)
        } else {
            &&& log_entry_updated(
                pre.log@,
                post.log@,
                op,
                EntryModel { commit_certificate: cert1, ..e0 },
            )
            &&& post.cl_reqs@ == pre.cl_reqs@
        }
        &&& post.next_seq_num == pre.next_seq_num
        &&& r is None
    }
}

/// What handling the client's own timeout does: the entry is marked
/// timed-out. With a certificate of at least `quorum_size` but below
/// the replica count, the slow path starts — a Commit carrying the
/// certificate goes to every replica. Below `quorum_size`, the request
/// is recorded as `timed-out`. Without an entry, nothing happens.
pub open spec fn client_timeout_post(
    pre: State,
    post: State,
    m: ClientTimeout,
    time: Time,
    r: Option<Output>,
) -> bool {
    let op = m.req_id;
    if log_has(pre.log@, op) {
        let e0 = model(log_get(pre.log@, op));
        let clen = e0.commit_certificate.len();
        &&& log_entry_updated(pre.log@, post.log@, op, EntryModel { timed_out: true, ..e0 })
        &&& post.cl_reqs@ == pre.cl_reqs@
        &&& post.next_seq_num == pre.next_seq_num
        &&& if pre.quorum_size <= clen < pre.peers@.len() {
            &&& post.results@ == pre.results@
            &&& (r matches Some(v) && commit_broadcast_output(
                v@,
                pre.peers@,
                op,
                e0.commit_certificate,
                pre.id,
            ))
        } else if clen < pre.quorum_size {
            &&& post.results@ == pre.results@.push(
                Record {
                    time,
                    node_id: Some(pre.id),
                    body: RecordBody::Progress { operation: op, phase: Phase::TimedOut },
                },
            )
            &&& r is None
        } else {
            &&& post.results@ == pre.results@
            &&& r is None
        }
    } else {
        &&& post == pre
        &&& r is None
    }
}

/// What handling a slow-path Commit does, at a replica: the request is
/// committed locally and garbage-collected at once, and the client
/// receives a LocalCommit. A replica that never stored the request
/// reconstructs it from the first certificate member and emits a
/// `committed_local` record.
pub open spec fn commit_post(
    pre: State,
    post: State,
    m: Commit,
    time: Time,
    r: Option<Output>,
) -> bool {
    let op = m.req_id;
    if log_has(pre.log@, op) {
        let e0 = model(log_get(pre.log@, op));
        &&& post.log@ == pre.log@.remove(log_idx(pre.log@, op))
        &&& post.cl_reqs@ == set_insert(pre.cl_reqs@, op)
        &&& post.results@ == pre.results@
        &&& post.next_seq_num == pre.next_seq_num
        &&& (r matches Some(v) && v@ == seq![
            (
                CLIENT_ID,
                ZyzzyvaMessage::LocalCommit(
                    LocalCommit {
                        c_req: e0.c_req,
                        view: e0.view,
                        seq_number: e0.seq_number,
                        sender_id: pre.id,
                    },
                ),
            ),
        ])
    } else {
        let sr = m.certificate@[0];
        &&& post.log@ == pre.log@
        &&& post.cl_reqs@ == set_insert(pre.cl_reqs@, op)
        &&& post.results@ == pre.results@.push(
            Record {
                time,
                node_id: Some(pre.id),
                body: RecordBody::Progress { operation: op, phase: Phase::CommittedLocal },
            },
        )
        &&& post.next_seq_num == pre.next_seq_num
        &&& (r matches Some(v) && v@ == seq![
            (
                CLIENT_ID,
                ZyzzyvaMessage::LocalCommit(
                    LocalCommit {
                        c_req: sr.c_req,
                        view: sr.view,
                        seq_number: sr.seq_number,
                        sender_id: pre.id,
                    },
                ),
            ),
        ])
    }
}

/// What handling a LocalCommit does, at the client: the sender joins
/// the entry's acknowledgement set; once `quorum_size`
/// acknowledgements are in, the slow path completes — a `completed`
/// record — and the entry is garbage-collected.
pub open spec fn local_commit_post(
    pre: State,
    post: State,
    m: LocalCommit,
    time: Time,
    r: Option<Output>,
) -> bool {
    let op = m.c_req.operation;
    let e0 = model(log_get(pre.log@, op));
    let lc1 = set_insert(e0.local_commits, m.sender_id);
    &&& if lc1.len() >= pre.quorum_size && !e0.completed {
        &&& post.log@ == pre.log@.remove(log_idx(pre.log@, op))
        &&& post.cl_reqs@ == set_insert(pre.cl_reqs@, op)
        &&& post.results@ == pre.results@.push(
            Record {
                time,
                node_id: Some(pre.id),
                body: RecordBody::Progress { operation: op, phase: Phase::Completed },
            },
        )
    } else {
        &&& log_entry_updated(pre.log@, post.log@, op, EntryModel { local_commits: lc1, ..e0 })
        &&& post.cl_reqs@ == pre.cl_reqs@
        &&& post.results@ == pre.results@
    }
    &&& post.next_seq_num == pre.next_seq_num
    &&& r is None
}

/// Everything `handle_message` does: messages about an
/// already-collected operation are dropped outright; otherwise exactly
/// what the dispatched handler does.
pub open spec fn handle_message_post(
    pre: State,
    post: State,
    message: ZyzzyvaMessage,
    time: Time,
    r: Option<Output>,
) -> bool {
    if can_ignore_spec(pre, message) {
        &&& post == pre
        &&& r is None
    } else {
        match message {
            ZyzzyvaMessage::ClientRequest(m) => client_request_post(pre, post, m, time, r),
            ZyzzyvaMessage::ClientTimeout(m) => client_timeout_post(pre, post, m, time, r),
            ZyzzyvaMessage::OrderRequest(m) => order_request_post(pre, post, m, time, r),
            ZyzzyvaMessage::SpeculativeResponse(m) => speculative_response_post(
                pre,
                post,
                m,
                time,
                r,
            ),
            ZyzzyvaMessage::Commit(m) => commit_post(pre, post, m, time, r),
            ZyzzyvaMessage::LocalCommit(m) => local_commit_post(pre, post, m, time, r),
        }
    }
}

/// Zyzzyva certificate consistency, fast path: when the client emits a
/// `completed` record while collecting speculative responses, the
/// commit certificate has exactly one response from every replica.
pub proof fn lemma_fast_path_certificate(
    pre: State,
    post: State,
    m: SpeculativeResponse,
    time: Time,
    r: Option<Output>,
)
    requires
        speculative_response_post(pre, post, m, time, r),
        log_has(pre.log@, m.c_req.operation),
        post.results@.len() > pre.results@.len(),
        post.results@.last().body == (RecordBody::Progress {
            operation: m.c_req.operation,
            phase: Phase::Completed,
        }),
    ensures
        set_insert(model(log_get(pre.log@, m.c_req.operation)).commit_certificate, m).len()
            == pre.num_of_nodes,
{
}

/// Zyzzyva certificate consistency, slow path: when the client emits a
/// `completed` record while collecting commit acknowledgements, at
/// least a quorum of replicas acknowledged.
pub proof fn lemma_slow_path_certificate(
    pre: State,
    post: State,
    m: LocalCommit,
    time: Time,
    r: Option<Output>,
)
    requires
        local_commit_post(pre, post, m, time, r),
        post.results@.len() > pre.results@.len(),
    ensures
        set_insert(model(log_get(pre.log@, m.c_req.operation)).local_commits, m.sender_id).len()
            >= pre.quorum_size,
{
}

/// A handler step that touches at most the entry for `op`, and only
/// grows it, is monotone over the whole log.
pub proof fn lemma_log_step_monotone(
    pre: Seq<(u32, LogEntry)>,
    post: Seq<(u32, LogEntry)>,
    op: u32,
)
    requires
        log_wf(pre),
        log_wf(post),
        post.len() >= pre.len(),
        forall|i: int| 0 <= i < pre.len() ==> (#[trigger] post[i]).0 == pre[i].0,
        forall|i: int| 0 <= i < pre.len() && pre[i].0 != op ==> post[i] == pre[i],
        log_has(pre, op) ==> entry_monotone(model(log_get(pre, op)), model(log_get(post, op))),
    ensures
        forall|o: u32|
            #![auto]
            log_has(pre, o) ==> log_has(post, o) && entry_monotone(
                model(log_get(pre, o)),
                model(log_get(post, o)),
            ),
{
    assert forall|o: u32|
        #![auto]
        log_has(pre, o) implies log_has(post, o) && entry_monotone(
        model(log_get(pre, o)),
        model(log_get(post, o)),
    ) by {
        let i = log_idx(pre, o);
        assert(0 <= i < pre.len() && pre[i].0 == o);
        lemma_log_idx(pre, o, i);
        lemma_log_idx(post, o, i);
        if o != op {
            assert(post[i] == pre[i]);
            lemma_prefix_refl(model(log_get(pre, o)).commit_certificate);
            lemma_prefix_refl(model(log_get(pre, o)).local_commits);
        }
    }
}

/// Removing the entry for `op` while adding `op` to the
/// garbage-collection set is monotone over the whole log.
pub proof fn lemma_log_remove_monotone(pre: State, post: State, op: u32)
    requires
        log_wf(pre.log@),
        log_has(pre.log@, op),
        post.log@ == pre.log@.remove(log_idx(pre.log@, op)),
        post.cl_reqs@ == set_insert(pre.cl_reqs@, op),
    ensures
        state_monotone(pre, post),
{
    let j = log_idx(pre.log@, op);
    assert forall|o: u32| #![auto] pre.cl_reqs@.contains(o) implies post.cl_reqs@.contains(o) by {
        let k = choose|k: int| 0 <= k < pre.cl_reqs@.len() && pre.cl_reqs@[k] == o;
        assert(post.cl_reqs@[k] == o);
    }
    assert forall|o: u32|
        #![auto]
        log_has(pre.log@, o) implies (log_has(post.log@, o) && entry_monotone(
        model(log_get(pre.log@, o)),
        model(log_get(post.log@, o)),
    )) || post.cl_reqs@.contains(o) by {
        let i = log_idx(pre.log@, o);
        lemma_log_idx(pre.log@, o, i);
        if i == j {
            if pre.cl_reqs@.contains(op) {
                let k = choose|k: int| 0 <= k < pre.cl_reqs@.len() && pre.cl_reqs@[k] == op;
                assert(post.cl_reqs@[k] == op);
            } else {
                assert(post.cl_reqs@[pre.cl_reqs@.len() as int] == op);
            }
        } else {
            assert(log_wf(post.log@)) by {
                assert forall|a: int, b: int|
                    0 <= a < post.log@.len() && 0 <= b < post.log@.len() && a != b implies post.log@[a].0
                    != post.log@[b].0 by {}
            }
            if i < j {
                assert(post.log@[i] == pre.log@[i]);
                lemma_log_idx(post.log@, o, i);
            } else {
                assert(post.log@[i - 1] == pre.log@[i]);
                lemma_log_idx(post.log@, o, i - 1);
            }
            lemma_prefix_refl(model(log_get(pre.log@, o)).commit_certificate);
            lemma_prefix_refl(model(log_get(pre.log@, o)).local_commits);
        }
    }
}

impl State {
    /// The node invariant: a plausible cluster, the quorum size
    /// derived from it, roles fixed by node id, a well-formed log and
    /// peer list, and the garbage-collection set free of duplicates.
    pub open spec fn wf(&self) -> bool {
        &&& self.num_of_nodes >= 4
        &&& self.current_view == 1
        &&& self.client_id == CLIENT_ID
        &&& self.role == (if self.id == 1 {
            Role::Primary
        } else if self.id == CLIENT_ID {
            Role::Client
        } else {
            Role::Backup
        })
        &&& self.quorum_size == 2 * ((self.num_of_nodes - 1) as int / 3) + 1
        &&& peers_wf(self.peers@, self.id, self.num_of_nodes)
        &&& self.cl_reqs@.no_duplicates()
        &&& log_wf(self.log@)
    }

    /// A fresh node for a cluster configured with `num_of_nodes`
    /// nodes, one of which acts as the client; internally the node
    /// works with one replica fewer. Node 1 is the primary and node
    /// `CLIENT_ID` the client. A Zyzzyva cluster needs at least 5
    /// configured nodes.
    pub fn new(id: u32, num_of_nodes: u32) -> (s: State)
        requires
            num_of_nodes >= 5,
        ensures
            s.wf(),
            s.id == id,
            s.num_of_nodes == num_of_nodes - 1,
            s.current_view == 1,
            s.next_seq_num == 0,
            s.log@.len() == 0,
            s.cl_reqs@.len() == 0,
            s.results@.len() == 0,
    {
        // the client counts as a cluster member; internally we work
        // with one replica fewer
        let num_of_nodes = num_of_nodes - 1;
        let f: u32 = (num_of_nodes - 1) / 3;
        State {
            id,
            log: Vec::new(),
            num_of_nodes,
            current_view: 1,
            next_seq_num: 0,
            cl_reqs: Vec::new(),
            role: if id == 1 {
                Role::Primary
            } else if id == CLIENT_ID {
                Role::Client
            } else {
                Role::Backup
            },
            client_id: CLIENT_ID,
            peers: build_peers(id, num_of_nodes),
            quorum_size: (2 * f + 1) as usize,
            results: Vec::new(),
        }
    }

    /// The id of the primary for the current view.
    fn curr_primary(&self) -> (r: u32)
        requires
            self.num_of_nodes > 0,
        ensures
            r as u64 == self.current_view % (self.num_of_nodes as u64),
    {
        (self.current_view % (self.num_of_nodes as u64)) as u32
    }

    /// Hands out the next sequence number.
    fn next_seq_num(&mut self) -> (n: u64)
        requires
            old(self).next_seq_num < u64::MAX,
        ensures
            n == old(self).next_seq_num + 1,
            final (self).next_seq_num == n,
            final (self).log == old(self).log,
            final (self).cl_reqs == old(self).cl_reqs,
            final (self).results == old(self).results,
            state_frame(*old(self), *final (self)),
    {
        self.next_seq_num = self.next_seq_num + 1;
        self.next_seq_num
    }

    /// Whether the node drops `message` outright: a LocalCommit,
    /// SpeculativeResponse or OrderRequest for an operation it has
    /// already garbage-collected.
    fn can_ignore_message(&self, message: &ZyzzyvaMessage) -> (r: bool)
        ensures
            r == can_ignore_spec(*self, *message),
    {
        match message {
            ZyzzyvaMessage::LocalCommit(m) => contains_u32(&self.cl_reqs, m.c_req.operation),
            ZyzzyvaMessage::SpeculativeResponse(m) => contains_u32(
                &self.cl_reqs,
                m.c_req.operation,
            ),
            ZyzzyvaMessage::OrderRequest(m) => contains_u32(&self.cl_reqs, m.c_req.operation),
            _ => false,
        }
    }

    /// Whether delivering `message` to this node would hit one of the
    /// unreachable protocol states; the scheduler treats that as a
    /// fatal harness misconfiguration.
    pub fn violates_protocol(&self, message: &ZyzzyvaMessage) -> (r: bool)
        ensures
            r == protocol_violation(*self, *message),
    {
        match message {
            ZyzzyvaMessage::ClientRequest(_) => self.role == Role::Backup,
            ZyzzyvaMessage::ClientTimeout(_) => self.role != Role::Client,
            ZyzzyvaMessage::OrderRequest(m) => self.role != Role::Backup || find_log_index(
                &self.log,
                m.c_req.operation,
            ).is_some(),
            ZyzzyvaMessage::SpeculativeResponse(m) => self.role != Role::Client || find_log_index(
                &self.log,
                m.c_req.operation,
            ).is_none(),
            ZyzzyvaMessage::Commit(m) => self.role == Role::Client || (find_log_index(
                &self.log,
                m.req_id,
            ).is_none() && m.certificate.len() == 0),
            ZyzzyvaMessage::LocalCommit(m) => find_log_index(&self.log, m.c_req.operation).is_none(),
        }
    }

    /// Whether the node can take `message` without hitting one of the
    /// unreachable protocol states: either it drops the message
    /// outright, or the arrival is legitimate.
    pub fn accepts(&self, message: &ZyzzyvaMessage) -> (r: bool)
        ensures
            r == (can_ignore_spec(*self, *message) || !protocol_violation(*self, *message)),
    {
        self.can_ignore_message(message) || !self.violates_protocol(message)
    }

    /// The log entry for an operation, if the node holds one.
    pub fn log_entry(&self, op: u32) -> (r: Option<&LogEntry>)
        requires
            self.wf(),
        ensures
            match r {
                Some(e) => log_has(self.log@, op) && *e == log_get(self.log@, op),
                None => !log_has(self.log@, op),
            },
    {
        match find_log_index(&self.log, op) {
            Some(i) => {
                proof {
                    lemma_log_idx(self.log@, op, i as int);
                }
                Some(&self.log[i].1)
            },
            None => None,
        }
    }

    /// The number of entries in the log.
    pub fn log_len(&self) -> (n: usize)
        ensures
            n == self.log@.len(),
    {
        self.log.len()
    }

    /// Whether an operation has been garbage-collected.
    pub fn has_committed(&self, op: u32) -> (r: bool)
        ensures
            r == self.cl_reqs@.contains(op),
    {
        contains_u32(&self.cl_reqs, op)
    }

    /// Hands the emitted result records over, oldest first, leaving
    /// the buffer empty; the protocol state itself is untouched.
    pub fn take_results(&mut self) -> (r: Vec<Record>)
        ensures
            r@ == old(self).results@,
            final (self).results@ == Seq::<Record>::empty(),
            final (self).log == old(self).log,
            final (self).cl_reqs == old(self).cl_reqs,
            final (self).next_seq_num == old(self).next_seq_num,
            state_frame(*old(self), *final (self)),
            old(self).wf() ==> final (self).wf(),
    {
        let mut out: Vec<Record> = Vec::new();
        core::mem::swap(&mut out, &mut self.results);
        proof {
            assert(self.results@ =~= Seq::<Record>::empty());
        }
        out
    }

    /// Garbage-collects the entry for `req_id`: the entry leaves the
    /// log, and the operation joins the set whose messages are dropped
    /// from now on.
    fn gc_entry(&mut self, req_id: u32)
        requires
            old(self).wf(),
            log_has(old(self).log@, req_id),
        ensures
            final (self).wf(),
            state_frame(*old(self), *final (self)),
            final (self).log@ == old(self).log@.remove(log_idx(old(self).log@, req_id)),
            final (self).cl_reqs@ == set_insert(old(self).cl_reqs@, req_id),
            final (self).next_seq_num == old(self).next_seq_num,
            final (self).results@ == old(self).results@,
    {
        let idx_opt = find_log_index(&self.log, req_id);
        let i = idx_opt.unwrap();
        proof {
            lemma_log_idx(old(self).log@, req_id, i as int);
        }
        let _removed = self.log.remove(i);
        if !contains_u32(&self.cl_reqs, req_id) {
            self.cl_reqs.push(req_id);
        }
        proof {
            lemma_set_insert_no_duplicates(old(self).cl_reqs@, req_id);
            assert(self.cl_reqs@ =~= set_insert(old(self).cl_reqs@, req_id));
            assert(log_wf(self.log@));
        }
    }

    /// The single entry point for incoming protocol traffic. The node
    /// first drops LocalCommit, SpeculativeResponse and OrderRequest
    /// messages for operations it has already garbage-collected, then
    /// dispatches on the message kind. Message arrivals that
    /// `protocol_violation` describes are unreachable in a well-formed
    /// run; the scheduler checks for them before delivering.
    #[verifier::rlimit(60)]
    pub fn handle_message(&mut self, zyzzyva_message: ZyzzyvaMessage, time: Time) -> (r: Option<
        Output,
    >)
        requires
            old(self).wf(),
            can_ignore_spec(*old(self), zyzzyva_message) || !protocol_violation(
                *old(self),
                zyzzyva_message,
            ),
            zyzzyva_message is ClientRequest && old(self).role is Primary ==> old(
                self,
            ).next_seq_num < u64::MAX,
        ensures
            final (self).wf(),
            state_frame(*old(self), *final (self)),
            old(self).results@.is_prefix_of(final (self).results@),
            // messages about an already-collected operation are
            // dropped outright; otherwise exactly what the dispatched
            // handler does
            handle_message_post(*old(self), *final (self), zyzzyva_message, time, r),
            // quorum monotonicity, except when a repeated client
            // request re-opens an entry
            !(zyzzyva_message is ClientRequest && log_has(
                old(self).log@,
                message_operation(zyzzyva_message),
            )) ==> state_monotone(*old(self), *final (self)),
            // a duplicate SpeculativeResponse that closes no quorum is
            // a no-op
            (zyzzyva_message matches ZyzzyvaMessage::SpeculativeResponse(m) && !old(
                self,
            ).cl_reqs@.contains(m.c_req.operation) && log_has(old(self).log@, m.c_req.operation)
                && ({
                let e0 = model(log_get(old(self).log@, m.c_req.operation));
                &&& e0.commit_certificate.contains(m)
                &&& e0.commit_certificate.len() != old(self).quorum_size
                &&& e0.commit_certificate.len() != old(self).num_of_nodes
            })) ==> same_state(*old(self), *final (self)) && r is None,
            // a duplicate LocalCommit below the quorum is a no-op
            (zyzzyva_message matches ZyzzyvaMessage::LocalCommit(m) && !old(
                self,
            ).cl_reqs@.contains(m.c_req.operation) && log_has(old(self).log@, m.c_req.operation)
                && ({
                let e0 = model(log_get(old(self).log@, m.c_req.operation));
                &&& e0.local_commits.contains(m.sender_id)
                &&& e0.local_commits.len() < old(self).quorum_size
            })) ==> same_state(*old(self), *final (self)) && r is None,
    {
        if self.can_ignore_message(&zyzzyva_message) {
            return None;
        }
        let ghost pre = *old(self);
        let ghost op = message_operation(zyzzyva_message);
        let r = match &zyzzyva_message {
            ZyzzyvaMessage::ClientRequest(m) => self.handle_client_request(*m, time),
            ZyzzyvaMessage::ClientTimeout(m) => self.handle_client_timeout(*m, time),
            ZyzzyvaMessage::OrderRequest(m) => self.handle_order_request(*m, time),
            ZyzzyvaMessage::SpeculativeResponse(m) => self.handle_speculative_response(*m, time),
            ZyzzyvaMessage::Commit(m) => self.handle_commit(m, time),
            ZyzzyvaMessage::LocalCommit(m) => self.handle_local_commit(*m, time),
        };
        proof {
            let q = pre.quorum_size;
            // monotonicity, by case on what the handler did
            if !(zyzzyva_message is ClientRequest && log_has(pre.log@, op)) {
                match &zyzzyva_message {
                    ZyzzyvaMessage::ClientRequest(m) => {
                        lemma_log_step_monotone(pre.log@, self.log@, op);
                    },
                    ZyzzyvaMessage::ClientTimeout(m) => {
                        if log_has(pre.log@, op) {
                            let e0 = model(log_get(pre.log@, op));
                            lemma_prefix_refl(e0.commit_certificate);
                            lemma_prefix_refl(e0.local_commits);
                        }
                        lemma_log_step_monotone(pre.log@, self.log@, op);
                    },
                    ZyzzyvaMessage::OrderRequest(m) => {
                        lemma_log_step_monotone(pre.log@, self.log@, op);
                    },
                    ZyzzyvaMessage::SpeculativeResponse(m) => {
                        let e0 = model(log_get(pre.log@, op));
                        let cert1 = set_insert(e0.commit_certificate, *m);
                        if !e0.timed_out && cert1.len() == pre.num_of_nodes {
                            lemma_log_remove_monotone(pre, *self, op);
                        } else {
                            lemma_prefix_set_insert(e0.commit_certificate, *m);
                            lemma_prefix_refl(e0.commit_certificate);
                            lemma_prefix_refl(e0.local_commits);
                            lemma_log_step_monotone(pre.log@, self.log@, op);
                        }
                    },
                    ZyzzyvaMessage::Commit(m) => {
                        if log_has(pre.log@, op) {
                            lemma_log_remove_monotone(pre, *self, op);
                        } else {
                            lemma_set_insert_contains(pre.cl_reqs@, op);
                            lemma_log_step_monotone(pre.log@, self.log@, op);
                        }
                    },
                    ZyzzyvaMessage::LocalCommit(m) => {
                        let e0 = model(log_get(pre.log@, op));
                        let lc1 = set_insert(e0.local_commits, m.sender_id);
                        if lc1.len() >= q && !e0.completed {
                            lemma_log_remove_monotone(pre, *self, op);
                        } else {
                            lemma_prefix_set_insert(e0.local_commits, m.sender_id);
                            lemma_prefix_refl(e0.commit_certificate);
                            lemma_log_step_monotone(pre.log@, self.log@, op);
                        }
                    },
                }
            }
            // the emitted records only grow
            assert(pre.results@.is_prefix_of(self.results@)) by {
                assert(pre.results@ =~= self.results@.subrange(0, pre.results@.len() as int));
            }
        }
        r
    }

    /// Handles an incoming client request; a backup never receives
    /// one. The client opens its own entry, forwards the request to
    /// the primary and schedules its timeout; the primary executes the
    /// request speculatively.
    pub fn handle_client_request(&mut self, msg_in: ClientRequest, time: Time) -> (r: Option<
        Output,
    >)
        requires
            old(self).wf(),
            !(old(self).role is Backup),
            old(self).role is Primary ==> old(self).next_seq_num < u64::MAX,
        ensures
            final (self).wf(),
            state_frame(*old(self), *final (self)),
            client_request_post(*old(self), *final (self), msg_in, time, r),
    {
        let op = msg_in.operation;
        match self.role {
            Role::Client => {
                // the client turns the simulation's request into a real
                // one towards the primary, and reminds itself to time out
                let request = ClientRequest::new(op, self.id);
                let entry = LogEntry::new(request, 0, 0);
                self.put_entry(op, entry);
                let primary = self.curr_primary();
                let mut output: Output = Vec::new();
                output.push((primary, ZyzzyvaMessage::ClientRequest(request)));
                output.push((self.id, ZyzzyvaMessage::ClientTimeout(ClientTimeout::new(op))));
                proof {
                    assert(output@ =~= seq![
                        (primary, ZyzzyvaMessage::ClientRequest(request)),
                        (self.id, ZyzzyvaMessage::ClientTimeout(ClientTimeout { req_id: op })),
                    ]);
                }
                Some(output)
            },
            Role::Primary => {
                let seq_number = self.next_seq_num();
                let mut entry = LogEntry::new(msg_in, self.current_view, seq_number);
                self.results.push(
                    Record {
                        time,
                        node_id: Some(self.id),
                        body: RecordBody::Progress { operation: op, phase: Phase::SpeculativeCommit },
                    },
                );
                entry.speculative_execution = true;
                self.put_entry(op, entry);
                let mut output: Output = Vec::new();
                output.push(
                    (
                        CLIENT_ID,
                        ZyzzyvaMessage::SpeculativeResponse(
                            SpeculativeResponse::new(msg_in, self.current_view, seq_number, self.id),
                        ),
                    ),
                );
                let mut order = create_peer_broadcast_output(
                    &ZyzzyvaMessage::OrderRequest(
                        OrderRequest::new(msg_in, self.current_view, seq_number, self.id),
                    ),
                    &self.peers,
                );
                output.append(&mut order);
                Some(output)
            },
            Role::Backup => {
                proof {
                    assert(false);
                }
                None
            },
        }
    }

    /// Stores `entry` under the key `op`, replacing an existing entry
    /// for the same operation.
    fn put_entry(&mut self, op: u32, entry: LogEntry)
        requires
            old(self).wf(),
            entry.wf(),
            entry.c_req.operation == op,
        ensures
            final (self).wf(),
            state_frame(*old(self), *final (self)),
            final (self).cl_reqs@ == old(self).cl_reqs@,
            final (self).results@ == old(self).results@,
            final (self).next_seq_num == old(self).next_seq_num,
            if log_has(old(self).log@, op) {
                log_entry_updated(old(self).log@, final (self).log@, op, model(entry))
            } else {
                log_entry_added(old(self).log@, final (self).log@, op, model(entry))
            },
    {
        let idx_opt = find_log_index(&self.log, op);
        match idx_opt {
            Some(i) => {
                proof {
                    lemma_log_idx(old(self).log@, op, i as int);
                }
                let _previous = self.log.remove(i);
                self.log.insert(i, (op, entry));
                proof {
                    assert forall|j: int|
                        0 <= j < old(self).log@.len() && j != i implies self.log@[j] == old(
                        self,
                    ).log@[j] by {}
                    assert(log_wf(self.log@));
                    lemma_log_idx(self.log@, op, i as int);
                }
            },
            None => {
                self.log.push((op, entry));
                proof {
                    assert(log_wf(self.log@));
                }
            },
        }
    }

    /// Handles an incoming OrderRequest; only a backup receives one,
    /// and only once per operation. The backup executes the request
    /// speculatively and answers the client.
    pub fn handle_order_request(&mut self, msg_in: OrderRequest, time: Time) -> (r: Option<Output>)
        requires
            old(self).wf(),
            old(self).role is Backup,
            !log_has(old(self).log@, msg_in.c_req.operation),
        ensures
            final (self).wf(),
            state_frame(*old(self), *final (self)),
            order_request_post(*old(self), *final (self), msg_in, time, r),
    {
        let op = msg_in.c_req.operation;
        let mut entry = LogEntry::new(msg_in.c_req, msg_in.view, msg_in.seq_number);
        entry.speculative_execution = true;
        self.log.push((op, entry));
        proof {
            assert(log_wf(self.log@));
        }
        self.results.push(
            Record {
                time,
                node_id: Some(self.id),
                body: RecordBody::Progress { operation: op, phase: Phase::SpeculativeCommit },
            },
        );
        let mut output: Output = Vec::new();
        output.push(
            (
                CLIENT_ID,
                ZyzzyvaMessage::SpeculativeResponse(
                    SpeculativeResponse::new(msg_in.c_req, msg_in.view, msg_in.seq_number, self.id),
                ),
            ),
        );
        proof {
            assert(output@ =~= seq![
                (
                    CLIENT_ID,
                    ZyzzyvaMessage::SpeculativeResponse(
                        SpeculativeResponse {
                            c_req: msg_in.c_req,
                            view: msg_in.view,
                            seq_number: msg_in.seq_number,
                            sender_id: self.id,
                        },
                    ),
                ),
            ]);
        }
        Some(output)
    }

    /// Handles an incoming SpeculativeResponse; only the client
    /// receives them, and only for requests it issued. The response
    /// joins the commit certificate; a full certificate completes the
    /// request on the fast path.
    pub fn handle_speculative_response(&mut self, msg_in: SpeculativeResponse, time: Time) -> (r:
        Option<Output>)
        requires
            old(self).wf(),
            old(self).role is Client,
            log_has(old(self).log@, msg_in.c_req.operation),
        ensures
            final (self).wf(),
            state_frame(*old(self), *final (self)),
            speculative_response_post(*old(self), *final (self), msg_in, time, r),
    {
        let op = msg_in.c_req.operation;
        let idx_opt = find_log_index(&self.log, op);
        let i = idx_opt.unwrap();
        proof {
            lemma_log_idx(old(self).log@, op, i as int);
        }
        // a timed-out request only accepts slow-path commit traffic
        if self.log[i].1.timed_out {
            return None;
        }
        let ghost e0 = model(old(self).log@[i as int].1);
        let mut pair = self.log.remove(i);
        if !contains_spec_response(&pair.1.commit_certificate, msg_in) {
            proof {
                lemma_set_insert_no_duplicates(e0.commit_certificate, msg_in);
            }
            pair.1.commit_certificate.push(msg_in);
        }
        proof {
            assert(pair.1.commit_certificate@ == set_insert(e0.commit_certificate, msg_in));
        }

        if pair.1.commit_certificate.len() == self.quorum_size {
            self.results.push(
                Record {
                    time,
                    node_id: Some(self.id),
                    body: RecordBody::Progress { operation: op, phase: Phase::CommitCertificate },
                },
            );
        }

        // Zyzzyva fast path: every replica answered
        if pair.1.commit_certificate.len() as u64 == self.num_of_nodes as u64 {
            self.results.push(
                Record {
                    time,
                    node_id: Some(self.id),
                    body: RecordBody::Progress { operation: op, phase: Phase::Completed },
                },
            );
            if !contains_u32(&self.cl_reqs, op) {
                self.cl_reqs.push(op);
            }
            proof {
                lemma_set_insert_no_duplicates(old(self).cl_reqs@, op);
                assert(self.cl_reqs@ =~= set_insert(old(self).cl_reqs@, op));
                assert(log_wf(self.log@));
            }
        } else {
            self.log.insert(i, pair);
            proof {
                assert forall|j: int|
                    0 <= j < old(self).log@.len() && j != i implies self.log@[j] == old(
                    self,
                ).log@[j] by {}
                assert(log_wf(self.log@));
                lemma_log_idx(self.log@, op, i as int);
                assert(model(pair.1) =~= (EntryModel {
                    commit_certificate: set_insert(e0.commit_certificate, msg_in),
                    ..e0
                }));
            }
        }
        proof {
            let cert1 = set_insert(e0.commit_certificate, msg_in);
            let rq: Seq<Record> = if cert1.len() == old(self).quorum_size {
                seq![
                    Record {
                        time,
                        node_id: Some(old(self).id),
                        body: RecordBody::Progress {
                            operation: op,
                            phase: Phase::CommitCertificate,
                        },
                    },
                ]
            } else {
                Seq::empty()
            };
            let rc: Seq<Record> = if cert1.len() == old(self).num_of_nodes {
                seq![
                    Record {
                        time,
                        node_id: Some(old(self).id),
                        body: RecordBody::Progress { operation: op, phase: Phase::Completed },
                    },
                ]
            } else {
                Seq::empty()
            };
            assert(self.results@ =~= old(self).results@ + rq + rc);
        }
        None
    }

    /// Handles the client's own timeout for a request: the entry is
    /// marked timed-out, and depending on how far the certificate got,
    /// the slow path starts or the request is recorded as timed out.
    pub fn handle_client_timeout(&mut self, msg_in: ClientTimeout, time: Time) -> (r: Option<
        Output,
    >)
        requires
            old(self).wf(),
            old(self).role is Client,
        ensures
            final (self).wf(),
            state_frame(*old(self), *final (self)),
            client_timeout_post(*old(self), *final (self), msg_in, time, r),
    {
        let op = msg_in.req_id;
        let idx_opt = find_log_index(&self.log, op);
        match idx_opt {
            Some(i) => {
                proof {
                    lemma_log_idx(old(self).log@, op, i as int);
                }
                let mut pair = self.log.remove(i);
                pair.1.timed_out = true;
                let cert_len = pair.1.commit_certificate.len();

                let mut r: Option<Output> = None;
                if cert_len >= self.quorum_size && cert_len < self.peers.len() {
                    // Zyzzyva slow path: ask the replicas to commit on
                    // the certificate collected so far
                    r = Some(
                        create_commit_broadcast(op, &pair.1.commit_certificate, self.id, &self.peers),
                    );
                } else if cert_len < self.quorum_size {
                    self.results.push(
                        Record {
                            time,
                            node_id: Some(self.id),
                            body: RecordBody::Progress { operation: op, phase: Phase::TimedOut },
                        },
                    );
                }
                self.log.insert(i, pair);
                proof {
                    assert forall|j: int|
                        0 <= j < old(self).log@.len() && j != i implies self.log@[j] == old(
                        self,
                    ).log@[j] by {}
                    assert(log_wf(self.log@));
                    lemma_log_idx(self.log@, op, i as int);
                }
                r
            },
            None => None,
        }
    }

    /// Handles a slow-path Commit; the client never receives one. The
    /// replica commits the request locally, answers the client with a
    /// LocalCommit, and garbage-collects the entry at once; a replica
    /// that never stored the request reconstructs it from the first
    /// certificate member.
    pub fn handle_commit(&mut self, msg_in: &Commit, time: Time) -> (r: Option<Output>)
        requires
            old(self).wf(),
            !(old(self).role is Client),
            !log_has(old(self).log@, msg_in.req_id) ==> msg_in.certificate@.len() > 0,
        ensures
            final (self).wf(),
            state_frame(*old(self), *final (self)),
            commit_post(*old(self), *final (self), *msg_in, time, r),
    {
        let op = msg_in.req_id;
        let idx_opt = find_log_index(&self.log, op);
        match idx_opt {
            Some(i) => {
                proof {
                    lemma_log_idx(old(self).log@, op, i as int);
                }
                let pair = self.log.remove(i);
                let mut output: Output = Vec::new();
                output.push(
                    (
                        CLIENT_ID,
                        ZyzzyvaMessage::LocalCommit(
                            LocalCommit::new(pair.1.c_req, pair.1.view, pair.1.seq_number, self.id),
                        ),
                    ),
                );
                if !contains_u32(&self.cl_reqs, op) {
                    self.cl_reqs.push(op);
                }
                proof {
                    lemma_set_insert_no_duplicates(old(self).cl_reqs@, op);
                    assert(self.cl_reqs@ =~= set_insert(old(self).cl_reqs@, op));
                    assert(log_wf(self.log@));
                    assert(output@ =~= seq![
                        (
                            CLIENT_ID,
                            ZyzzyvaMessage::LocalCommit(
                                LocalCommit {
                                    c_req: pair.1.c_req,
                                    view: pair.1.view,
                                    seq_number: pair.1.seq_number,
                                    sender_id: self.id,
                                },
                            ),
                        ),
                    ]);
                }
                Some(output)
            },
            None => {
                let spec_res = msg_in.certificate[0];
                self.results.push(
                    Record {
                        time,
                        node_id: Some(self.id),
                        body: RecordBody::Progress { operation: op, phase: Phase::CommittedLocal },
                    },
                );
                let mut output: Output = Vec::new();
                output.push(
                    (
                        CLIENT_ID,
                        ZyzzyvaMessage::LocalCommit(
                            LocalCommit::new(
                                spec_res.c_req,
                                spec_res.view,
                                spec_res.seq_number,
                                self.id,
                            ),
                        ),
                    ),
                );
                if !contains_u32(&self.cl_reqs, op) {
                    self.cl_reqs.push(op);
                }
                proof {
                    lemma_set_insert_no_duplicates(old(self).cl_reqs@, op);
                    assert(self.cl_reqs@ =~= set_insert(old(self).cl_reqs@, op));
                    assert(output@ =~= seq![
                        (
                            CLIENT_ID,
                            ZyzzyvaMessage::LocalCommit(
                                LocalCommit {
                                    c_req: spec_res.c_req,
                                    view: spec_res.view,
                                    seq_number: spec_res.seq_number,
                                    sender_id: self.id,
                                },
                            ),
                        ),
                    ]);
                }
                Some(output)
            },
        }
    }

    /// Handles a LocalCommit acknowledgement, at the client: the
    /// sender joins the acknowledgement set, and a quorum of
    /// acknowledgements completes the request on the slow path.
    pub fn handle_local_commit(&mut self, msg_in: LocalCommit, time: Time) -> (r: Option<Output>)
        requires
            old(self).wf(),
            log_has(old(self).log@, msg_in.c_req.operation),
        ensures
            final (self).wf(),
            state_frame(*old(self), *final (self)),
            local_commit_post(*old(self), *final (self), msg_in, time, r),
    {
        let op = msg_in.c_req.operation;
        let idx_opt = find_log_index(&self.log, op);
        let i = idx_opt.unwrap();
        proof {
            lemma_log_idx(old(self).log@, op, i as int);
        }
        let ghost e0 = model(old(self).log@[i as int].1);
        let mut pair = self.log.remove(i);
        if !contains_u32(&pair.1.local_commits, msg_in.sender_id) {
            proof {
                lemma_set_insert_no_duplicates(e0.local_commits, msg_in.sender_id);
            }
            pair.1.local_commits.push(msg_in.sender_id);
        }
        proof {
            assert(pair.1.local_commits@ == set_insert(e0.local_commits, msg_in.sender_id));
        }

        if pair.1.local_commits.len() >= self.quorum_size && !pair.1.completed {
            // Zyzzyva slow path completes: a quorum acknowledged the
            // commit
            self.results.push(
                Record {
                    time,
                    node_id: Some(self.id),
                    body: RecordBody::Progress { operation: op, phase: Phase::Completed },
                },
            );
            if !contains_u32(&self.cl_reqs, op) {
                self.cl_reqs.push(op);
            }
            proof {
                lemma_set_insert_no_duplicates(old(self).cl_reqs@, op);
                assert(self.cl_reqs@ =~= set_insert(old(self).cl_reqs@, op));
                assert(log_wf(self.log@));
            }
        } else {
            self.log.insert(i, pair);
            proof {
                assert forall|j: int|
                    0 <= j < old(self).log@.len() && j != i implies self.log@[j] == old(
                    self,
                ).log@[j] by {}
                assert(log_wf(self.log@));
                lemma_log_idx(self.log@, op, i as int);
            }
        }
        None
    }
}

} // verus!
