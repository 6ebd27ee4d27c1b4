//! The PBFT replica state machine: the per-request log with its quorum
//! sets, the guarded predicate transitions `prepared` and
//! `committed_local`, the broadcast generation, and the
//! garbage-collection discipline that keeps per-request memory bounded.

use vstd::prelude::*;

use crate::pbft::messages::{ClientRequest, CommitMessage, PBFTMessage, PrePrepareMessage,
    PrepareMessage};
use crate::record::{Phase, Record, RecordBody};
use crate::seqset::{contains_u32, lemma_prefix_refl, lemma_prefix_set_insert, lemma_prefix_trans,
    lemma_set_insert_no_duplicates, set_insert};
use crate::time::Time;

verus! {

/// The output produced by a replica: messages to hand to the host,
/// each with the id of its recipient.
pub type Output = Vec<(u32, PBFTMessage)>;

/// The messages allowed in the Prepare (first) quorum set.
#[derive(Debug, PartialEq, Eq, Structural, Hash, Clone, Copy)]
pub enum PrepareQuorumMessage {
    PrePrepareMessage(PrePrepareMessage),
    PrepareMessage(PrepareMessage),
}

/// The roles a PBFT replica can have.
#[derive(Debug, PartialEq, Eq, Structural, Clone, Copy)]
pub enum ReplicaRole {
    Primary,
    Backup,
}

/// Holds when a prepare quorum set has at least one PrePrepare.
pub open spec fn has_preprepare(s: Seq<PrepareQuorumMessage>) -> bool {
    exists|i: int| 0 <= i < s.len() && s[i] is PrePrepareMessage
}

/// One entry of the replica's log: the client request with the view
/// and sequence number the primary assigned to it, the collected
/// quorum messages, and the two monotonic predicates.
#[derive(Debug)]
pub struct LogEntry {
    /// View number assigned by the primary to this request.
    pub view: u64,
    /// Sequence number assigned by the primary to this request.
    pub seq_number: u64,
    /// The original client request.
    pub client_request: ClientRequest,
    /// The Prepare quorum messages collected so far: at most one
    /// PrePrepare, plus Prepare votes. Deduplicated by structural
    /// equality.
    pub prepare_quorum: Vec<PrepareQuorumMessage>,
    /// The Commit quorum messages collected so far, deduplicated by
    /// structural equality.
    pub commit_quorum: Vec<CommitMessage>,
    /// True as soon as the replica has collected a Prepare quorum for
    /// this entry. Never reverts to false.
    pub prepared: bool,
    /// True as soon as the replica has collected a Commit quorum for
    /// this entry. Never reverts to false.
    pub committed_local: bool,
}

impl LogEntry {
    /// The quorum sets hold no duplicate votes, and the predicates are
    /// justified: `prepared` only with a PrePrepare and a full Prepare
    /// quorum of size `q`, `committed_local` only on top of `prepared`
    /// and a full Commit quorum.
    pub open spec fn wf(&self, q: usize) -> bool {
        &&& self.prepare_quorum@.no_duplicates()
        &&& self.commit_quorum@.no_duplicates()
        &&& self.prepared ==> has_preprepare(self.prepare_quorum@) && self.prepare_quorum@.len()
            >= q
        &&& self.committed_local ==> self.prepared && self.commit_quorum@.len() >= q
    }

    pub fn new(view: u64, seq_number: u64, client_request: ClientRequest) -> (e: LogEntry)
        ensures
            e.view == view,
            e.seq_number == seq_number,
            e.client_request == client_request,
            e.prepare_quorum@ == Seq::<PrepareQuorumMessage>::empty(),
            e.commit_quorum@ == Seq::<CommitMessage>::empty(),
            !e.prepared,
            !e.committed_local,
    {
        let e = LogEntry {
            view,
            seq_number,
            client_request,
            prepare_quorum: Vec::new(),
            commit_quorum: Vec::new(),
            committed_local: false,
            prepared: false,
        };
        proof {
            assert(e.prepare_quorum@ =~= Seq::<PrepareQuorumMessage>::empty());
            assert(e.commit_quorum@ =~= Seq::<CommitMessage>::empty());
        }
        e
    }

    /// Whether the Commit quorum has reached `quorum_size` votes.
    pub fn has_commit_quorum_of(&self, quorum_size: usize) -> (r: bool)
        ensures
            r == (self.commit_quorum@.len() >= quorum_size),
    {
        self.commit_quorum.len() >= quorum_size
    }

    /// Whether the Prepare quorum has reached `quorum_size` votes, one
    /// of them a PrePrepare.
    pub fn has_prepare_quorum_of(&self, quorum_size: usize) -> (r: bool)
        ensures
            r == (has_preprepare(self.prepare_quorum@) && self.prepare_quorum@.len()
                >= quorum_size),
    {
        self.has_pre_prepare_message() && self.prepare_quorum.len() >= quorum_size
    }

    /// Whether the Prepare quorum holds a PrePrepare message.
    fn has_pre_prepare_message(&self) -> (r: bool)
        ensures
            r == has_preprepare(self.prepare_quorum@),
    {
        let mut i: usize = 0;
        while i < self.prepare_quorum.len()
            invariant
                0 <= i <= self.prepare_quorum@.len(),
                forall|j: int| 0 <= j < i ==> !(self.prepare_quorum@[j] is PrePrepareMessage),
            decreases self.prepare_quorum@.len() - i,
        {
            if let PrepareQuorumMessage::PrePrepareMessage(_) = self.prepare_quorum[i] {
                return true;
            }
            i = i + 1;
        }
        false
    }

    /// Adds a vote to the Prepare quorum set; a duplicate is dropped.
    fn insert_prepare_quorum(&mut self, m: PrepareQuorumMessage)
        ensures
            final (self).prepare_quorum@ == set_insert(old(self).prepare_quorum@, m),
            old(self).prepare_quorum@.no_duplicates() ==> final (self).prepare_quorum@.no_duplicates(),
            final (self).commit_quorum == old(self).commit_quorum,
            final (self).view == old(self).view,
            final (self).seq_number == old(self).seq_number,
            final (self).client_request == old(self).client_request,
            final (self).prepared == old(self).prepared,
            final (self).committed_local == old(self).committed_local,
    {
        proof {
            if old(self).prepare_quorum@.no_duplicates() {
                lemma_set_insert_no_duplicates(old(self).prepare_quorum@, m);
            }
        }
        if !contains_prepare_quorum(&self.prepare_quorum, m) {
            self.prepare_quorum.push(m);
        }
    }

    /// Adds a vote to the Commit quorum set; a duplicate is dropped.
    fn insert_commit_quorum(&mut self, m: CommitMessage)
        ensures
            final (self).commit_quorum@ == set_insert(old(self).commit_quorum@, m),
            old(self).commit_quorum@.no_duplicates() ==> final (self).commit_quorum@.no_duplicates(),
            final (self).prepare_quorum == old(self).prepare_quorum,
            final (self).view == old(self).view,
            final (self).seq_number == old(self).seq_number,
            final (self).client_request == old(self).client_request,
            final (self).prepared == old(self).prepared,
            final (self).committed_local == old(self).committed_local,
    {
        proof {
            if old(self).commit_quorum@.no_duplicates() {
                lemma_set_insert_no_duplicates(old(self).commit_quorum@, m);
            }
        }
        if !contains_commit_message(&self.commit_quorum, m) {
            self.commit_quorum.push(m);
        }
    }
}

/// Whether a Prepare quorum set already holds the vote `m`.
fn contains_prepare_quorum(v: &Vec<PrepareQuorumMessage>, m: PrepareQuorumMessage) -> (r: bool)
    ensures
        r == v@.contains(m),
{
    let mut i: usize = 0;
    while i < v.len()
        invariant
            0 <= i <= v@.len(),
            forall|j: int| 0 <= j < i ==> v@[j] != m,
        decreases v@.len() - i,
    {
        if v[i] == m {
            return true;
        }
        i = i + 1;
    }
    false
}

/// Whether a Commit quorum set already holds the vote `m`.
fn contains_commit_message(v: &Vec<CommitMessage>, m: CommitMessage) -> (r: bool)
    ensures
        r == v@.contains(m),
{
    let mut i: usize = 0;
    while i < v.len()
        invariant
            0 <= i <= v@.len(),
            forall|j: int| 0 <= j < i ==> v@[j] != m,
        decreases v@.len() - i,
    {
        if v[i] == m {
            return true;
        }
        i = i + 1;
    }
    false
}

/// The mathematical content of a log entry: its fields, with the
/// quorum sets as sequences.
#[verifier::ext_equal]
pub ghost struct EntryModel {
    pub view: u64,
    pub seq_number: u64,
    pub client_request: ClientRequest,
    pub prepare_quorum: Seq<PrepareQuorumMessage>,
    pub commit_quorum: Seq<CommitMessage>,
    pub prepared: bool,
    pub committed_local: bool,
}

/// The mathematical content of a log entry.
pub open spec fn model(e: LogEntry) -> EntryModel {
    EntryModel {
        view: e.view,
        seq_number: e.seq_number,
        client_request: e.client_request,
        prepare_quorum: e.prepare_quorum@,
        commit_quorum: e.commit_quorum@,
        prepared: e.prepared,
        committed_local: e.committed_local,
    }
}

/// The content of a just-created log entry.
pub open spec fn fresh_model(view: u64, seq_number: u64, client_request: ClientRequest)
    -> EntryModel {
    EntryModel {
        view,
        seq_number,
        client_request,
        prepare_quorum: Seq::empty(),
        commit_quorum: Seq::empty(),
        prepared: false,
        committed_local: false,
    }
}

/// The entry with a vote added to its Prepare quorum set.
pub open spec fn pq_insert(e: EntryModel, m: PrepareQuorumMessage) -> EntryModel {
    EntryModel { prepare_quorum: set_insert(e.prepare_quorum, m), ..e }
}

/// The entry with a vote added to its Commit quorum set.
pub open spec fn cq_insert(e: EntryModel, m: CommitMessage) -> EntryModel {
    EntryModel { commit_quorum: set_insert(e.commit_quorum, m), ..e }
}

/// The Commit vote a replica casts for its own entry when it becomes
/// prepared.
pub open spec fn own_commit(e: EntryModel, id: u32) -> CommitMessage {
    CommitMessage {
        c_req: e.client_request,
        view: e.view,
        seq_number: e.seq_number,
        sender_id: id,
    }
}

/// Whether the predicate update flips `prepared`: not yet prepared,
/// a PrePrepare present, and a full Prepare quorum.
pub open spec fn step_becomes_prepared(e: EntryModel, q: usize) -> bool {
    !e.prepared && has_preprepare(e.prepare_quorum) && e.prepare_quorum.len() >= q
}

/// The entry after the `prepared` check of the predicate update: when
/// it fires, the replica marks the entry prepared and casts its own
/// Commit vote.
pub open spec fn after_prepare_check(e: EntryModel, q: usize, id: u32) -> EntryModel {
    if step_becomes_prepared(e, q) {
        EntryModel {
            prepared: true,
            commit_quorum: set_insert(e.commit_quorum, own_commit(e, id)),
            ..e
        }
    } else {
        e
    }
}

/// Whether the predicate update flips `committed_local`: prepared (by
/// now), not yet committed, and a full Commit quorum.
pub open spec fn step_becomes_committed(e: EntryModel, q: usize, id: u32) -> bool {
    let e1 = after_prepare_check(e, q, id);
    e1.prepared && !e1.committed_local && e1.commit_quorum.len() >= q
}

/// The entry after the whole predicate update.
pub open spec fn predicates_step(e: EntryModel, q: usize, id: u32) -> EntryModel {
    let e1 = after_prepare_check(e, q, id);
    if step_becomes_committed(e, q, id) {
        EntryModel { committed_local: true, ..e1 }
    } else {
        e1
    }
}

/// The result records the predicate update emits: `prepared` and
/// `committed_local`, in that order, each when its flag flips.
pub open spec fn step_records(e: EntryModel, q: usize, id: u32, op: u32, time: Time) -> Seq<
    Record,
> {
    let rp: Seq<Record> = if step_becomes_prepared(e, q) {
        seq![
            Record {
                time,
                node_id: Some(id),
                body: RecordBody::Progress { operation: op, phase: Phase::Prepared },
            },
        ]
    } else {
        Seq::empty()
    };
    let rc: Seq<Record> = if step_becomes_committed(e, q, id) {
        seq![
            Record {
                time,
                node_id: Some(id),
                body: RecordBody::Progress { operation: op, phase: Phase::CommittedLocal },
            },
        ]
    } else {
        Seq::empty()
    };
    rp + rc
}

/// The outgoing messages the predicate update appends: the replica's
/// own Commit vote, broadcast to all peers, when the entry becomes
/// prepared.
pub open spec fn step_extra_output(e: EntryModel, q: usize, id: u32, peers: Seq<u32>) -> Seq<
    (u32, PBFTMessage),
> {
    if step_becomes_prepared(e, q) {
        broadcast_to_peers(peers, PBFTMessage::Commit(own_commit(e, id)))
    } else {
        Seq::empty()
    }
}

/// A broadcast of one message to every peer, in peer order.
pub open spec fn broadcast_to_peers(peers: Seq<u32>, m: PBFTMessage) -> Seq<(u32, PBFTMessage)> {
    Seq::new(peers.len(), |i: int| (peers[i], m))
}

/// Whether the log holds an entry keyed by `op`.
pub open spec fn log_has(log: Seq<(u32, LogEntry)>, op: u32) -> bool {
    exists|i: int| 0 <= i < log.len() && log[i].0 == op
}

/// The index of the entry keyed by `op`.
pub open spec fn log_idx(log: Seq<(u32, LogEntry)>, op: u32) -> int {
    choose|i: int| 0 <= i < log.len() && log[i].0 == op
}

/// The entry keyed by `op`.
pub open spec fn log_get(log: Seq<(u32, LogEntry)>, op: u32) -> LogEntry {
    log[log_idx(log, op)].1
}

/// Log well-formedness: keys are unique, each entry is well-formed,
/// and each entry is keyed by its own request's operation.
pub open spec fn log_wf(log: Seq<(u32, LogEntry)>, q: usize) -> bool {
    &&& forall|i: int, j: int|
        0 <= i < log.len() && 0 <= j < log.len() && i != j ==> log[i].0 != log[j].0
    &&& forall|i: int|
        0 <= i < log.len() ==> (#[trigger] log[i]).1.wf(q) && log[i].1.client_request.operation
            == log[i].0
}

/// In a well-formed log, any index holding `op` is the index of `op`.
pub proof fn lemma_log_idx(log: Seq<(u32, LogEntry)>, q: usize, op: u32, i: int)
    requires
        log_wf(log, q),
        0 <= i < log.len(),
        log[i].0 == op,
    ensures
        log_has(log, op),
        log_idx(log, op) == i,
{
    assert(log_has(log, op));
    let j = log_idx(log, op);
    assert(0 <= j < log.len() && log[j].0 == op);
    if i != j {
        assert(log[i].0 != log[j].0);
    }
}

/// A handler step that touches at most the entry for `op`, and only
/// grows it, is monotone over the whole log.
pub proof fn lemma_log_step_monotone(
    pre: Seq<(u32, LogEntry)>,
    post: Seq<(u32, LogEntry)>,
    q: usize,
    op: u32,
)
    requires
        log_wf(pre, q),
        log_wf(post, q),
        post.len() >= pre.len(),
        forall|i: int| 0 <= i < pre.len() ==> (#[trigger] post[i]).0 == pre[i].0,
        forall|i: int| 0 <= i < pre.len() && pre[i].0 != op ==> post[i] == pre[i],
        log_has(pre, op) ==> entry_monotone(
            model(log_get(pre, op)),
            model(log_get(post, op)),
        ),
    ensures
        forall|o: u32|
            #![auto]
            log_has(pre, o) ==> log_has(post, o) && entry_monotone(
                model(log_get(pre, o)),
                model(log_get(post, o)),
            ),
{
    assert forall|o: u32|
        #![auto]
        log_has(pre, o) implies log_has(post, o) && entry_monotone(
        model(log_get(pre, o)),
        model(log_get(post, o)),
    ) by {
        let i = log_idx(pre, o);
        assert(0 <= i < pre.len() && pre[i].0 == o);
        lemma_log_idx(pre, q, o, i);
        lemma_log_idx(post, q, o, i);
        if o != op {
            assert(post[i] == pre[i]);
            lemma_prefix_refl(model(log_get(pre, o)).prepare_quorum);
            lemma_prefix_refl(model(log_get(pre, o)).commit_quorum);
        }
    }
}

/// The garbage-collection step is monotone: the removed entry's
/// operation joins the committed set, and every other entry survives
/// unchanged.
pub proof fn lemma_gc_monotone(mid: ReplicaState, post: ReplicaState, op: u32)
    requires
        gc_post(mid, post, op),
        log_wf(mid.log@, mid.quorum_size),
        log_wf(post.log@, mid.quorum_size),
    ensures
        forall|o: u32| #![auto] mid.cl_reqs@.contains(o) ==> post.cl_reqs@.contains(o),
        forall|o: u32|
            #![auto]
            log_has(mid.log@, o) ==> (log_has(post.log@, o) && entry_monotone(
                model(log_get(mid.log@, o)),
                model(log_get(post.log@, o)),
            )) || post.cl_reqs@.contains(o),
{
    if log_has(mid.log@, op) && log_get(mid.log@, op).committed_local {
        let j = log_idx(mid.log@, op);
        assert forall|o: u32| #![auto] mid.cl_reqs@.contains(o) implies post.cl_reqs@.contains(
            o,
        ) by {
            let k = choose|k: int| 0 <= k < mid.cl_reqs@.len() && mid.cl_reqs@[k] == o;
            assert(post.cl_reqs@[k] == o);
        }
        assert forall|o: u32|
            #![auto]
            log_has(mid.log@, o) implies (log_has(post.log@, o) && entry_monotone(
            model(log_get(mid.log@, o)),
            model(log_get(post.log@, o)),
        )) || post.cl_reqs@.contains(o) by {
            let i = log_idx(mid.log@, o);
            lemma_log_idx(mid.log@, mid.quorum_size, o, i);
            if i == j {
                // the removed entry: its operation is in the committed set now
                if mid.cl_reqs@.contains(op) {
                    let k = choose|k: int| 0 <= k < mid.cl_reqs@.len() && mid.cl_reqs@[k] == op;
                    assert(post.cl_reqs@[k] == op);
                } else {
                    assert(post.cl_reqs@[mid.cl_reqs@.len() as int] == op);
                }
            } else if i < j {
                assert(post.log@[i] == mid.log@[i]);
                lemma_log_idx(post.log@, mid.quorum_size, o, i);
                lemma_prefix_refl(model(log_get(mid.log@, o)).prepare_quorum);
                lemma_prefix_refl(model(log_get(mid.log@, o)).commit_quorum);
            } else {
                assert(post.log@[i - 1] == mid.log@[i]);
                lemma_log_idx(post.log@, mid.quorum_size, o, i - 1);
                lemma_prefix_refl(model(log_get(mid.log@, o)).prepare_quorum);
                lemma_prefix_refl(model(log_get(mid.log@, o)).commit_quorum);
            }
        }
    }
}

/// PBFT safety at the replica: an entry is committed-local only if it
/// is prepared — a PrePrepare and a full Prepare quorum are in — and
/// its Commit quorum has at least `quorum_size` votes. The quorum sets
/// only grow, so the quorums that justified each flip are still
/// present.
pub proof fn lemma_committed_implies_prepared(s: ReplicaState, op: u32)
    requires
        s.wf(),
        log_has(s.log@, op),
        log_get(s.log@, op).committed_local,
    ensures
        log_get(s.log@, op).prepared,
        log_get(s.log@, op).commit_quorum@.len() >= s.quorum_size,
        has_preprepare(log_get(s.log@, op).prepare_quorum@),
        log_get(s.log@, op).prepare_quorum@.len() >= s.quorum_size,
{
    let i = log_idx(s.log@, op);
    assert(0 <= i < s.log@.len() && s.log@[i].0 == op);
    assert(s.log@[i].1.wf(s.quorum_size));
}

/// A PrePrepare in the set survives an insertion, and inserting a
/// PrePrepare puts one there.
pub proof fn lemma_has_preprepare_insert(s: Seq<PrepareQuorumMessage>, x: PrepareQuorumMessage)
    ensures
        has_preprepare(s) ==> has_preprepare(set_insert(s, x)),
        x is PrePrepareMessage ==> has_preprepare(set_insert(s, x)),
{
    if has_preprepare(s) {
        let i = choose|i: int| 0 <= i < s.len() && s[i] is PrePrepareMessage;
        if !s.contains(x) {
            assert(s.push(x)[i] is PrePrepareMessage);
        }
    }
    if x is PrePrepareMessage {
        if s.contains(x) {
            let i = choose|i: int| 0 <= i < s.len() && s[i] == x;
            assert(s[i] is PrePrepareMessage);
        } else {
            assert(s.push(x)[s.len() as int] is PrePrepareMessage);
        }
    }
}

/// Peer lists: no duplicates, every peer a valid node id other than
/// one's own, and complete over the cluster.
pub open spec fn peers_wf(peers: Seq<u32>, id: u32, n: u32) -> bool {
    &&& peers.no_duplicates()
    &&& forall|j: int| 0 <= j < peers.len() ==> 1 <= #[trigger] peers[j] <= n && peers[j] != id
    &&& forall|p: u32| 1 <= p <= n && p != id ==> peers.contains(p)
}

/// Builds the peer list 1..=n without `id`, in ascending order.
fn build_peers(id: u32, n: u32) -> (peers: Vec<u32>)
    ensures
        peers_wf(peers@, id, n),
{
    let mut peers: Vec<u32> = Vec::new();
    let mut p: u64 = 1;
    while p <= n as u64
        invariant
            1 <= p <= n as u64 + 1,
            peers@.no_duplicates(),
            forall|j: int| 0 <= j < peers@.len() ==> 1 <= #[trigger] peers@[j] < p && peers@[j] != id,
            forall|q: u32| 1 <= q < p && q != id ==> peers@.contains(q),
        decreases n + 1 - p,
    {
        if p != id as u64 {
            let pd = p as u32;
            let ghost prev = peers@;
            proof {
                if prev.contains(pd) {
                    let j = choose|j: int| 0 <= j < prev.len() && prev[j] == pd;
                    assert(prev[j] < p);
                }
                lemma_set_insert_no_duplicates(prev, pd);
            }
            peers.push(pd);
            proof {
                assert(peers@ == set_insert(prev, pd));
                assert forall|q: u32| 1 <= q < p + 1 && q != id implies peers@.contains(q) by {
                    if q == pd {
                        assert(peers@[prev.len() as int] == pd);
                    } else {
                        assert(prev.contains(q));
                        let j = choose|j: int| 0 <= j < prev.len() && prev[j] == q;
                        assert(peers@[j] == q);
                    }
                }
            }
        }
        p = p + 1;
    }
    peers
}

/// The state a replica needs to take part in a PBFT cluster. The
/// single entry point for protocol traffic is `handle_message`.
#[derive(Debug)]
pub struct ReplicaState {
    /// This replica's node id.
    pub id: u32,
    /// The per-request log, keyed by the request's operation id.
    pub log: Vec<(u32, LogEntry)>,
    /// Operation ids of locally committed requests, kept so the
    /// replica drops all later quorum messages about them.
    pub cl_reqs: Vec<u32>,
    /// The fixed number of nodes in the cluster.
    pub num_of_nodes: u32,
    /// The view the replica currently operates in; this core has no
    /// view change, so it stays at its initial value.
    pub current_view: u64,
    /// Used only by the primary, to assign the next sequence number.
    pub next_seq_num: u64,
    /// The replica's role in the cluster.
    pub role: ReplicaRole,
    /// The ids of the other nodes.
    pub peers: Vec<u32>,
    /// The minimal quorum size, `2f + 1` with `f = (n - 1) / 3`.
    pub quorum_size: usize,
    /// The result records this replica has emitted, in order.
    pub results: Vec<Record>,
}

/// Which messages a replica ignores outright: Prepare and Commit
/// votes for an operation it has already committed and
/// garbage-collected.
pub open spec fn can_ignore_spec(s: ReplicaState, message: PBFTMessage) -> bool {
    match message {
        PBFTMessage::Prepare(m) => s.cl_reqs@.contains(m.c_req.operation),
        PBFTMessage::Commit(m) => s.cl_reqs@.contains(m.c_req.operation),
        _ => false,
    }
}

/// The operation id a message is about.
pub open spec fn message_operation(message: PBFTMessage) -> u32 {
    match message {
        PBFTMessage::ClientRequest(m) => m.operation,
        PBFTMessage::ClientResponse(m) => m.result,
        PBFTMessage::PrePrepare(m) => m.c_req.operation,
        PBFTMessage::Prepare(m) => m.c_req.operation,
        PBFTMessage::Commit(m) => m.c_req.operation,
    }
}

/// The configuration of a replica never changes while it handles
/// messages.
pub open spec fn replica_frame(pre: ReplicaState, post: ReplicaState) -> bool {
    &&& post.id == pre.id
    &&& post.num_of_nodes == pre.num_of_nodes
    &&& post.current_view == pre.current_view
    &&& post.role == pre.role
    &&& post.peers@ == pre.peers@
    &&& post.quorum_size == pre.quorum_size
}

/// One entry grown from another: the predicates never revert and the
/// quorum sets only gain votes.
pub open spec fn entry_monotone(a: EntryModel, b: EntryModel) -> bool {
    &&& a.prepared ==> b.prepared
    &&& a.committed_local ==> b.committed_local
    &&& a.prepare_quorum.is_prefix_of(b.prepare_quorum)
    &&& a.commit_quorum.is_prefix_of(b.commit_quorum)
}

/// Quorum monotonicity: an entry's predicates never revert, its quorum
/// sets only grow, and an entry only ever leaves the log for the set
/// of committed requests; that set itself only grows.
pub open spec fn state_monotone(pre: ReplicaState, post: ReplicaState) -> bool {
    &&& forall|op: u32| #![auto] pre.cl_reqs@.contains(op) ==> post.cl_reqs@.contains(op)
    &&& forall|op: u32|
        #![auto]
        log_has(pre.log@, op) ==> {
            ||| (log_has(post.log@, op) && entry_monotone(
                model(log_get(pre.log@, op)),
                model(log_get(post.log@, op)),
            ))
            ||| post.cl_reqs@.contains(op)
        }
}

/// Entry growth composes.
pub proof fn lemma_entry_monotone_trans(a: EntryModel, b: EntryModel, c: EntryModel)
    requires
        entry_monotone(a, b),
        entry_monotone(b, c),
    ensures
        entry_monotone(a, c),
{
    lemma_prefix_trans(a.prepare_quorum, b.prepare_quorum, c.prepare_quorum);
    lemma_prefix_trans(a.commit_quorum, b.commit_quorum, c.commit_quorum);
}

/// Inserting a Prepare quorum vote only grows the entry.
pub proof fn lemma_pq_insert_monotone(e: EntryModel, x: PrepareQuorumMessage)
    ensures
        entry_monotone(e, pq_insert(e, x)),
{
    lemma_prefix_set_insert(e.prepare_quorum, x);
    lemma_prefix_refl(e.commit_quorum);
}

/// Inserting a Commit quorum vote only grows the entry.
pub proof fn lemma_cq_insert_monotone(e: EntryModel, x: CommitMessage)
    ensures
        entry_monotone(e, cq_insert(e, x)),
{
    lemma_prefix_set_insert(e.commit_quorum, x);
    lemma_prefix_refl(e.prepare_quorum);
}

/// The predicate update only grows the entry.
pub proof fn lemma_step_monotone(e: EntryModel, q: usize, id: u32)
    ensures
        entry_monotone(e, predicates_step(e, q, id)),
{
    lemma_prefix_refl(e.prepare_quorum);
    if step_becomes_prepared(e, q) {
        lemma_prefix_set_insert(e.commit_quorum, own_commit(e, id));
    } else {
        lemma_prefix_refl(e.commit_quorum);
    }
}

/// The predicate update settles an entry: running it again changes
/// nothing. This is what makes duplicate vote deliveries idempotent.
pub proof fn lemma_predicates_step_idempotent(e: EntryModel, q: usize, id: u32)
    ensures
        predicates_step(predicates_step(e, q, id), q, id) == predicates_step(e, q, id),
{
    assert(predicates_step(predicates_step(e, q, id), q, id) =~= predicates_step(e, q, id));
}

/// The garbage-collection step at the end of `handle_message`: a
/// locally committed entry leaves the log and its operation id joins
/// the committed set; otherwise nothing happens.
pub open spec fn gc_post(mid: ReplicaState, post: ReplicaState, op: u32) -> bool {
    if log_has(mid.log@, op) && log_get(mid.log@, op).committed_local {
        &&& post.log@ == mid.log@.remove(log_idx(mid.log@, op))
        &&& post.cl_reqs@ == set_insert(mid.cl_reqs@, op)
        &&& post.next_seq_num == mid.next_seq_num
        &&& post.results@ == mid.results@
        &&& replica_frame(mid, post)
    } else {
        post == mid
    }
}

/// Two replica states with the same mathematical content.
pub open spec fn same_replica(a: ReplicaState, b: ReplicaState) -> bool {
    &&& replica_frame(a, b)
    &&& b.next_seq_num == a.next_seq_num
    &&& b.cl_reqs@ == a.cl_reqs@
    &&& b.results@ == a.results@
    &&& b.log@.len() == a.log@.len()
    &&& forall|i: int|
        0 <= i < a.log@.len() ==> (#[trigger] b.log@[i]).0 == a.log@[i].0 && model(b.log@[i].1)
            == model(a.log@[i].1)
}

/// The log after the entry for `op` was replaced by one with content
/// `em`: same keys, same entries elsewhere.
pub open spec fn log_entry_updated(
    pre: Seq<(u32, LogEntry)>,
    post: Seq<(u32, LogEntry)>,
    op: u32,
    em: EntryModel,
) -> bool {
    &&& post.len() == pre.len()
    &&& forall|i: int| 0 <= i < pre.len() && i != log_idx(pre, op) ==> post[i] == pre[i]
    &&& forall|i: int| 0 <= i < pre.len() ==> (#[trigger] post[i]).0 == pre[i].0
    &&& log_has(post, op)
    &&& model(log_get(post, op)) == em
}

/// The log after a new entry for `op` with content `em` was appended.
pub open spec fn log_entry_added(
    pre: Seq<(u32, LogEntry)>,
    post: Seq<(u32, LogEntry)>,
    op: u32,
    em: EntryModel,
) -> bool {
    &&& post.len() == pre.len() + 1
    &&& forall|i: int| 0 <= i < pre.len() ==> post[i] == pre[i]
    &&& post[pre.len() as int].0 == op
    &&& model(post[pre.len() as int].1) == em
}

/// What handling a client request does: the primary assigns the next
/// sequence number, opens a log entry holding its own synthetic
/// PrePrepare vote, emits a `request` record, and broadcasts the
/// PrePrepare to all peers; a non-primary drops the request.
pub open spec fn client_request_post(
    pre: ReplicaState,
    post: ReplicaState,
    m: ClientRequest,
    time: Time,
    r: Option<Output>,
) -> bool {
    if pre.role is Primary {
        let seq1 = (pre.next_seq_num + 1) as u64;
        let pp = PrePrepareMessage {
            c_req: m,
            view: pre.current_view,
            seq_number: seq1,
            sender_id: pre.id,
        };
        let em = EntryModel {
            view: pre.current_view,
            seq_number: seq1,
            client_request: m,
            prepare_quorum: seq![PrepareQuorumMessage::PrePrepareMessage(pp)],
            commit_quorum: Seq::empty(),
            prepared: false,
            committed_local: false,
        };
        &&& post.next_seq_num == seq1
        &&& post.results@ == pre.results@.push(
            Record {
                time,
                node_id: Some(pre.id),
                body: RecordBody::Progress { operation: m.operation, phase: Phase::Request },
            },
        )
        &&& if log_has(pre.log@, m.operation) {
            log_entry_updated(pre.log@, post.log@, m.operation, em)
        } else {
            log_entry_added(pre.log@, post.log@, m.operation, em)
        }
        &&& post.cl_reqs@ == pre.cl_reqs@
        &&& (r matches Some(v) && v@ == broadcast_to_peers(pre.peers@, PBFTMessage::PrePrepare(pp)))
    } else {
        &&& post.log@ == pre.log@
        &&& post.results@ == pre.results@
        &&& post.next_seq_num == pre.next_seq_num
        &&& post.cl_reqs@ == pre.cl_reqs@
        &&& r is None
    }
}

/// What handling a PrePrepare does, when it comes from the primary of
/// the current view: find or open the entry for the operation, emit a
/// `pre-prepared` record, insert the PrePrepare and the replica's own
/// Prepare vote, broadcast that Prepare, and run the predicate
/// update. A PrePrepare from anyone else is dropped.
pub open spec fn pre_prepare_post(
    pre: ReplicaState,
    post: ReplicaState,
    m: PrePrepareMessage,
    time: Time,
    r: Option<Output>,
) -> bool {
    let op = m.c_req.operation;
    let q = pre.quorum_size;
    let id = pre.id;
    if m.sender_id as u64 == pre.current_view % (pre.num_of_nodes as u64) {
        let e0 = if log_has(pre.log@, op) {
            model(log_get(pre.log@, op))
        } else {
            fresh_model(m.view, m.seq_number, m.c_req)
        };
        let prep = PrepareMessage {
            c_req: e0.client_request,
            view: e0.view,
            seq_number: e0.seq_number,
            sender_id: id,
        };
        let e1 = pq_insert(
            pq_insert(e0, PrepareQuorumMessage::PrePrepareMessage(m)),
            PrepareQuorumMessage::PrepareMessage(prep),
        );
        let e2 = predicates_step(e1, q, id);
        let recs = seq![
            Record {
                time,
                node_id: Some(id),
                body: RecordBody::Progress { operation: op, phase: Phase::PrePrepared },
            },
        ] + step_records(e1, q, id, op, time);
        let out = broadcast_to_peers(pre.peers@, PBFTMessage::Prepare(prep)) + step_extra_output(
            e1,
            q,
            id,
            pre.peers@,
        );
        &&& if log_has(pre.log@, op) {
            log_entry_updated(pre.log@, post.log@, op, e2)
        } else {
            log_entry_added(pre.log@, post.log@, op, e2)
        }
        &&& post.results@ == pre.results@ + recs
        &&& post.next_seq_num == pre.next_seq_num
        &&& post.cl_reqs@ == pre.cl_reqs@
        &&& (r is None ==> out.len() == 0)
        &&& (r matches Some(v) ==> v@ == out && out.len() > 0)
    } else {
        &&& post.log@ == pre.log@
        &&& post.results@ == pre.results@
        &&& post.next_seq_num == pre.next_seq_num
        &&& post.cl_reqs@ == pre.cl_reqs@
        &&& r is None
    }
}

/// What handling a Prepare vote does: insert it into the entry's
/// Prepare quorum set and run the predicate update; without an entry,
/// open one holding just this vote (the PrePrepare may still be on its
/// way).
pub open spec fn prepare_post(
    pre: ReplicaState,
    post: ReplicaState,
    m: PrepareMessage,
    time: Time,
    r: Option<Output>,
) -> bool {
    let op = m.c_req.operation;
    let q = pre.quorum_size;
    let id = pre.id;
    &&& if log_has(pre.log@, op) {
        let e0 = model(log_get(pre.log@, op));
        let e1 = pq_insert(e0, PrepareQuorumMessage::PrepareMessage(m));
        let e2 = predicates_step(e1, q, id);
        let out = step_extra_output(e1, q, id, pre.peers@);
        &&& log_entry_updated(pre.log@, post.log@, op, e2)
        &&& post.results@ == pre.results@ + step_records(e1, q, id, op, time)
        &&& (r is None ==> out.len() == 0)
        &&& (r matches Some(v) ==> v@ == out && out.len() > 0)
    } else {
        let em = EntryModel {
            view: m.view,
            seq_number: m.seq_number,
            client_request: m.c_req,
            prepare_quorum: seq![PrepareQuorumMessage::PrepareMessage(m)],
            commit_quorum: Seq::empty(),
            prepared: false,
            committed_local: false,
        };
        &&& log_entry_added(pre.log@, post.log@, op, em)
        &&& post.results@ == pre.results@
        &&& r is None
    }
    &&& post.next_seq_num == pre.next_seq_num
    &&& post.cl_reqs@ == pre.cl_reqs@
}

/// What handling a Commit vote does: insert it into the entry's
/// Commit quorum set and run the predicate update; without an entry,
/// open one holding just this vote.
pub open spec fn commit_post(
    pre: ReplicaState,
    post: ReplicaState,
    m: CommitMessage,
    time: Time,
    r: Option<Output>,
) -> bool {
    let op = m.c_req.operation;
    let q = pre.quorum_size;
    let id = pre.id;
    &&& if log_has(pre.log@, op) {
        let e0 = model(log_get(pre.log@, op));
        let e1 = cq_insert(e0, m);
        let e2 = predicates_step(e1, q, id);
        let out = step_extra_output(e1, q, id, pre.peers@);
        &&& log_entry_updated(pre.log@, post.log@, op, e2)
        &&& post.results@ == pre.results@ + step_records(e1, q, id, op, time)
        &&& (r is None ==> out.len() == 0)
        &&& (r matches Some(v) ==> v@ == out && out.len() > 0)
    } else {
        let em = EntryModel {
            view: m.view,
            seq_number: m.seq_number,
            client_request: m.c_req,
            prepare_quorum: Seq::empty(),
            commit_quorum: seq![m],
            prepared: false,
            committed_local: false,
        };
        &&& log_entry_added(pre.log@, post.log@, op, em)
        &&& post.results@ == pre.results@
        &&& r is None
    }
    &&& post.next_seq_num == pre.next_seq_num
    &&& post.cl_reqs@ == pre.cl_reqs@
}

/// Everything `handle_message` does: votes about an
/// already-committed operation are dropped outright; otherwise the
/// dispatched handler runs, and then the garbage-collection step.
pub open spec fn handle_message_post(
    pre: ReplicaState,
    post: ReplicaState,
    message: PBFTMessage,
    time: Time,
    r: Option<Output>,
) -> bool {
    if can_ignore_spec(pre, message) {
        &&& post == pre
        &&& r is None
    } else {
        exists|mid: ReplicaState|
            {
                &&& #[trigger] gc_post(mid, post, message_operation(message))
                &&& match message {
                    PBFTMessage::ClientRequest(m) => client_request_post(pre, mid, m, time, r),
                    PBFTMessage::PrePrepare(m) => pre_prepare_post(pre, mid, m, time, r),
                    PBFTMessage::Prepare(m) => prepare_post(pre, mid, m, time, r),
                    PBFTMessage::Commit(m) => commit_post(pre, mid, m, time, r),
                    PBFTMessage::ClientResponse(_) => false,
                }
            }
    }
}

/// Looks an operation id up in a log.
fn find_log_index(log: &Vec<(u32, LogEntry)>, op: u32) -> (r: Option<usize>)
    ensures
        match r {
            Some(i) => i < log@.len() && log@[i as int].0 == op,
            None => !log_has(log@, op),
        },
{
    let mut i: usize = 0;
    while i < log.len()
        invariant
            0 <= i <= log@.len(),
            forall|j: int| 0 <= j < i ==> log@[j].0 != op,
        decreases log@.len() - i,
    {
        if log[i].0 == op {
            return Some(i);
        }
        i = i + 1;
    }
    None
}

/// An output that broadcasts `msg_out` to all peers in the given
/// list.
fn create_peer_broadcast_output(msg_out: PBFTMessage, peers: &Vec<u32>) -> (out: Output)
    ensures
        out@ == broadcast_to_peers(peers@, msg_out),
{
    let mut out: Output = Vec::new();
    let mut i: usize = 0;
    while i < peers.len()
        invariant
            0 <= i <= peers@.len(),
            out@.len() == i,
            forall|j: int| 0 <= j < i ==> out@[j] == (peers@[j], msg_out),
        decreases peers@.len() - i,
    {
        out.push((peers[i], msg_out));
        i = i + 1;
    }
    proof {
        assert(out@ =~= broadcast_to_peers(peers@, msg_out));
    }
    out
}

impl ReplicaState {
    /// The replica invariant: a plausible cluster, the quorum size
    /// derived from it, a well-formed log and peer list, and the
    /// committed set free of duplicates.
    pub open spec fn wf(&self) -> bool {
        &&& self.num_of_nodes >= 4
        &&& self.current_view == 1
        &&& (self.role is Primary <==> self.id as u64 == self.current_view % (
        self.num_of_nodes as u64))
        &&& self.quorum_size == 2 * ((self.num_of_nodes - 1) as int / 3) + 1
        &&& peers_wf(self.peers@, self.id, self.num_of_nodes)
        &&& self.cl_reqs@.no_duplicates()
        &&& log_wf(self.log@, self.quorum_size)
    }

    /// A fresh replica for a cluster of `num_of_nodes` nodes, in view
    /// 1; the node whose id equals `1 mod num_of_nodes` is the
    /// primary. A PBFT cluster needs at least 4 nodes.
    pub fn new(id: u32, num_of_nodes: u32) -> (s: ReplicaState)
        requires
            num_of_nodes >= 4,
        ensures
            s.wf(),
            s.id == id,
            s.num_of_nodes == num_of_nodes,
            s.current_view == 1,
            s.next_seq_num == 0,
            s.log@.len() == 0,
            s.cl_reqs@.len() == 0,
            s.results@.len() == 0,
            s.role is Primary <==> id == 1,
    {
        let initial_view: u64 = 1;
        proof {
            assert(initial_view % (num_of_nodes as u64) == 1) by (nonlinear_arith)
                requires
                    num_of_nodes >= 4,
                    initial_view == 1,
            ;
        }
        let f: u32 = (num_of_nodes - 1) / 3;
        let role = if (id as u64) == initial_view % (num_of_nodes as u64) {
            ReplicaRole::Primary
        } else {
            ReplicaRole::Backup
        };
        ReplicaState {
            id,
            num_of_nodes,
            role,
            current_view: initial_view,
            next_seq_num: 0,
            log: Vec::new(),
            cl_reqs: Vec::new(),
            peers: build_peers(id, num_of_nodes),
            quorum_size: (2 * f + 1) as usize,
            results: Vec::new(),
        }
    }

    /// The id of the primary for the current view.
    fn curr_primary(&self) -> (r: u32)
        requires
            self.num_of_nodes > 0,
        ensures
            r as u64 == self.current_view % (self.num_of_nodes as u64),
    {
        (self.current_view % (self.num_of_nodes as u64)) as u32
    }

    /// Whether this replica is the primary of the current view.
    fn is_primary(&self) -> (r: bool)
        ensures
            r == (self.role is Primary),
    {
        self.role == ReplicaRole::Primary
    }

    /// Hands out the next sequence number.
    fn next_seq_num(&mut self) -> (n: u64)
        requires
            old(self).next_seq_num < u64::MAX,
        ensures
            n == old(self).next_seq_num + 1,
            final (self).next_seq_num == n,
            final (self).log == old(self).log,
            final (self).cl_reqs == old(self).cl_reqs,
            final (self).results == old(self).results,
            replica_frame(*old(self), *final (self)),
    {
        self.next_seq_num = self.next_seq_num + 1;
        self.next_seq_num
    }

    /// Whether the replica drops `message` outright: a Prepare or
    /// Commit for an operation it has already committed locally.
    fn can_ignore_message(&self, message: &PBFTMessage) -> (r: bool)
        ensures
            r == can_ignore_spec(*self, *message),
    {
        match message {
            PBFTMessage::Prepare(m) => contains_u32(&self.cl_reqs, m.c_req.operation),
            PBFTMessage::Commit(m) => contains_u32(&self.cl_reqs, m.c_req.operation),
            _ => false,
        }
    }

    /// The log entry for an operation, if the replica holds one.
    pub fn log_entry(&self, op: u32) -> (r: Option<&LogEntry>)
        requires
            self.wf(),
        ensures
            match r {
                Some(e) => log_has(self.log@, op) && *e == log_get(self.log@, op),
                None => !log_has(self.log@, op),
            },
    {
        match find_log_index(&self.log, op) {
            Some(i) => {
                proof {
                    lemma_log_idx(self.log@, self.quorum_size, op, i as int);
                }
                Some(&self.log[i].1)
            },
            None => None,
        }
    }

    /// The number of entries in the log.
    pub fn log_len(&self) -> (n: usize)
        ensures
            n == self.log@.len(),
    {
        self.log.len()
    }

    /// Whether an operation is in the committed set.
    pub fn has_committed(&self, op: u32) -> (r: bool)
        ensures
            r == self.cl_reqs@.contains(op),
    {
        contains_u32(&self.cl_reqs, op)
    }

    /// Hands the emitted result records over, oldest first, leaving
    /// the buffer empty; the protocol state itself is untouched.
    pub fn take_results(&mut self) -> (r: Vec<Record>)
        ensures
            r@ == old(self).results@,
            final (self).results@ == Seq::<Record>::empty(),
            final (self).log == old(self).log,
            final (self).cl_reqs == old(self).cl_reqs,
            final (self).next_seq_num == old(self).next_seq_num,
            replica_frame(*old(self), *final (self)),
            old(self).wf() ==> final (self).wf(),
    {
        let mut out: Vec<Record> = Vec::new();
        core::mem::swap(&mut out, &mut self.results);
        proof {
            assert(self.results@ =~= Seq::<Record>::empty());
        }
        out
    }

    /// The predicate update, run after every mutation of an entry's
    /// quorum sets: flips `prepared` when a Prepare quorum with a
    /// PrePrepare is in, casting and broadcasting the replica's own
    /// Commit vote; then flips `committed_local` when a Commit quorum
    /// is in. Each flip emits a result record.
    fn update_predicates(&mut self, req_id: u32, output: Output, time: Time) -> (r: Option<Output>)
        requires
            old(self).wf(),
            log_has(old(self).log@, req_id),
        ensures
            final (self).wf(),
            replica_frame(*old(self), *final (self)),
            final (self).cl_reqs@ == old(self).cl_reqs@,
            final (self).next_seq_num == old(self).next_seq_num,
            final (self).log@.len() == old(self).log@.len(),
            forall|i: int|
                0 <= i < old(self).log@.len() && i != log_idx(old(self).log@, req_id)
                    ==> final (self).log@[i] == old(self).log@[i],
            forall|i: int|
                0 <= i < old(self).log@.len() ==> final (self).log@[i].0 == old(self).log@[i].0,
            log_has(final (self).log@, req_id),
            ({
                let e0 = model(log_get(old(self).log@, req_id));
                let q = old(self).quorum_size;
                let id = old(self).id;
                &&& model(log_get(final (self).log@, req_id)) == predicates_step(e0, q, id)
                &&& final (self).results@ == old(self).results@ + step_records(
                    e0,
                    q,
                    id,
                    req_id,
                    time,
                )
                &&& ({
                    let out = output@ + step_extra_output(e0, q, id, old(self).peers@);
                    &&& (r is None ==> out.len() == 0)
                    &&& (r matches Some(v) ==> v@ == out && out.len() > 0)
                })
            }),
    {
        let idx_opt = find_log_index(&self.log, req_id);
        let idx = idx_opt.unwrap();
        proof {
            lemma_log_idx(old(self).log@, old(self).quorum_size, req_id, idx as int);
        }
        let q = self.quorum_size;
        let id = self.id;
        let ghost e0 = model(old(self).log@[idx as int].1);

        let mut pair = self.log.remove(idx);
        let mut out = output;
        let ghost out0 = out@;

        // `prepared` predicate check
        if !pair.1.prepared && pair.1.has_prepare_quorum_of(q) {
            self.results.push(
                Record {
                    time,
                    node_id: Some(id),
                    body: RecordBody::Progress {
                        operation: pair.1.client_request.operation,
                        phase: Phase::Prepared,
                    },
                },
            );
            pair.1.prepared = true;
            let commit = CommitMessage::new(pair.1.client_request, pair.1.view, pair.1.seq_number, id);
            pair.1.insert_commit_quorum(commit);
            // send a batch of Commit messages, since we just prepared
            let mut extra = create_peer_broadcast_output(PBFTMessage::Commit(commit), &self.peers);
            out.append(&mut extra);
            proof {
                assert(model(pair.1) =~= after_prepare_check(e0, q, id));
            }
        } else {
            proof {
                assert(model(pair.1) =~= after_prepare_check(e0, q, id));
            }
        }

        // `committed_local` predicate check
        if pair.1.prepared && !pair.1.committed_local && pair.1.has_commit_quorum_of(q) {
            self.results.push(
                Record {
                    time,
                    node_id: Some(id),
                    body: RecordBody::Progress {
                        operation: pair.1.client_request.operation,
                        phase: Phase::CommittedLocal,
                    },
                },
            );
            pair.1.committed_local = true;
        }
        proof {
            assert(model(pair.1) =~= predicates_step(e0, q, id));
            assert(self.results@ =~= old(self).results@ + step_records(e0, q, id, req_id, time));
            assert(out@ =~= out0 + step_extra_output(e0, q, id, old(self).peers@));
        }

        self.log.insert(idx, pair);
        proof {
            assert forall|i: int|
                0 <= i < old(self).log@.len() && i != idx implies self.log@[i] == old(
                self,
            ).log@[i] by {
                if i < idx {
                } else {
                    assert(self.log@[i] == old(self).log@.remove(idx as int).insert(
                        idx as int,
                        pair,
                    )[i]);
                }
            }
            assert(log_wf(self.log@, q));
            lemma_log_idx(self.log@, q, req_id, idx as int);
        }

        if out.len() == 0 {
            None
        } else {
            Some(out)
        }
    }

    /// The single entry point for incoming protocol traffic. The
    /// replica first drops Prepare and Commit votes for operations it
    /// has already committed locally; it then dispatches on the
    /// message kind, and finally garbage-collects the entry for the
    /// message's operation if it has committed: the entry leaves the
    /// log and the operation joins the committed set, so that all
    /// later votes about it are dropped and the entry is never
    /// resurrected. A replica never receives a ClientResponse.
    #[verifier::rlimit(60)]
    pub fn handle_message(&mut self, message: PBFTMessage, time: Time) -> (r: Option<Output>)
        requires
            old(self).wf(),
            !(message is ClientResponse),
            message is ClientRequest ==> old(self).next_seq_num < u64::MAX,
        ensures
            final (self).wf(),
            replica_frame(*old(self), *final (self)),
            old(self).results@.is_prefix_of(final (self).results@),
            // votes about an already-committed operation are dropped
            // outright; otherwise the dispatched handler runs, then
            // the garbage-collection step
            handle_message_post(*old(self), *final (self), message, time, r),
            // no locally committed entry is ever left in the log
            !can_ignore_spec(*old(self), message) ==> (log_has(
                final (self).log@,
                message_operation(message),
            ) ==> !log_get(final (self).log@, message_operation(message)).committed_local),
            // quorum monotonicity, except when the primary re-opens an
            // entry for a repeated client request
            !(message matches PBFTMessage::ClientRequest(m) && old(self).role is Primary
                && log_has(old(self).log@, m.operation)) ==> state_monotone(
                *old(self),
                *final (self),
            ),
            // a duplicate Prepare vote for a settled entry is a no-op
            (message matches PBFTMessage::Prepare(m) && !old(self).cl_reqs@.contains(
                m.c_req.operation,
            ) && log_has(old(self).log@, m.c_req.operation) && ({
                let e0 = model(log_get(old(self).log@, m.c_req.operation));
                &&& e0.prepare_quorum.contains(PrepareQuorumMessage::PrepareMessage(m))
                &&& !step_becomes_prepared(e0, old(self).quorum_size)
                &&& !step_becomes_committed(e0, old(self).quorum_size, old(self).id)
                &&& !e0.committed_local
            })) ==> same_replica(*old(self), *final (self)) && r is None,
            // a duplicate Commit vote for a settled entry is a no-op
            (message matches PBFTMessage::Commit(m) && !old(self).cl_reqs@.contains(
                m.c_req.operation,
            ) && log_has(old(self).log@, m.c_req.operation) && ({
                let e0 = model(log_get(old(self).log@, m.c_req.operation));
                &&& e0.commit_quorum.contains(m)
                &&& !step_becomes_prepared(e0, old(self).quorum_size)
                &&& !step_becomes_committed(e0, old(self).quorum_size, old(self).id)
                &&& !e0.committed_local
            })) ==> same_replica(*old(self), *final (self)) && r is None,
    {
        if self.can_ignore_message(&message) {
            return None;
        }
        let op: u32 = match &message {
            PBFTMessage::ClientRequest(m) => m.operation,
            PBFTMessage::ClientResponse(m) => m.result,
            PBFTMessage::PrePrepare(m) => m.c_req.operation,
            PBFTMessage::Prepare(m) => m.c_req.operation,
            PBFTMessage::Commit(m) => m.c_req.operation,
        };
        let r = match message {
            PBFTMessage::ClientRequest(m) => self.handle_client_request(m, time),
            PBFTMessage::PrePrepare(m) => self.handle_pre_prepare_message(m, time),
            PBFTMessage::Prepare(m) => self.handle_prepare_message(m, time),
            PBFTMessage::Commit(m) => self.handle_commit_message(m, time),
            PBFTMessage::ClientResponse(_) => {
                proof {
                    assert(false);
                }
                None
            },
        };
        let ghost mid = *self;

        // garbage collection: a locally committed entry leaves the log
        // and its operation joins the committed set
        let idx_opt = find_log_index(&self.log, op);
        if let Some(i) = idx_opt {
            proof {
                lemma_log_idx(mid.log@, mid.quorum_size, op, i as int);
            }
            if self.log[i].1.committed_local {
                let _removed = self.log.remove(i);
                if !contains_u32(&self.cl_reqs, op) {
                    self.cl_reqs.push(op);
                }
                proof {
                    lemma_set_insert_no_duplicates(mid.cl_reqs@, op);
                    assert(self.cl_reqs@ =~= set_insert(mid.cl_reqs@, op));
                    assert(log_wf(self.log@, self.quorum_size));
                }
            }
        }

        proof {
            let pre = *old(self);
            let q = pre.quorum_size;
            let id = pre.id;
            assert(gc_post(mid, *self, op));
            assert(op == message_operation(message));
            match message {
                PBFTMessage::ClientRequest(m) => {
                    assert(client_request_post(pre, mid, m, time, r));
                },
                PBFTMessage::PrePrepare(m) => {
                    assert(pre_prepare_post(pre, mid, m, time, r));
                },
                PBFTMessage::Prepare(m) => {
                    assert(prepare_post(pre, mid, m, time, r));
                },
                PBFTMessage::Commit(m) => {
                    assert(commit_post(pre, mid, m, time, r));
                },
                PBFTMessage::ClientResponse(_) => {},
            }

            // the message's operation is not left committed in the log
            if log_has(self.log@, op) {
                let k = log_idx(self.log@, op);
                lemma_log_idx(self.log@, q, op, k);
                if log_has(mid.log@, op) && log_get(mid.log@, op).committed_local {
                    let j = log_idx(mid.log@, op);
                    assert forall|n: int| 0 <= n < self.log@.len() implies self.log@[n].0 != op by {
                        if n < j {
                            assert(self.log@[n] == mid.log@[n]);
                            lemma_log_idx(mid.log@, q, self.log@[n].0, n);
                        } else {
                            assert(self.log@[n] == mid.log@[n + 1]);
                            lemma_log_idx(mid.log@, q, self.log@[n].0, n + 1);
                        }
                    }
                } else {
                    assert(*self == mid);
                }
            }

            // monotonicity: the handler grows the entry, garbage
            // collection only trades a committed entry for membership
            // in the committed set
            if !(message matches PBFTMessage::ClientRequest(m) && pre.role is Primary && log_has(
                pre.log@,
                m.operation,
            )) {
                if log_has(pre.log@, op) && log_has(mid.log@, op) {
                    lemma_log_idx(pre.log@, q, op, log_idx(pre.log@, op));
                }
                match message {
                    PBFTMessage::ClientRequest(m) => {
                        if log_has(pre.log@, m.operation) {
                            lemma_prefix_refl(model(log_get(pre.log@, op)).prepare_quorum);
                            lemma_prefix_refl(model(log_get(pre.log@, op)).commit_quorum);
                        }
                    },
                    PBFTMessage::PrePrepare(m) => {
                        if log_has(pre.log@, op) {
                            let e0 = model(log_get(pre.log@, op));
                            if m.sender_id as u64 == pre.current_view % (pre.num_of_nodes as u64) {
                                let prep = PrepareMessage {
                                    c_req: e0.client_request,
                                    view: e0.view,
                                    seq_number: e0.seq_number,
                                    sender_id: id,
                                };
                                let ea = pq_insert(
                                    e0,
                                    PrepareQuorumMessage::PrePrepareMessage(m),
                                );
                                let e1 = pq_insert(ea, PrepareQuorumMessage::PrepareMessage(prep));
                                lemma_pq_insert_monotone(
                                    e0,
                                    PrepareQuorumMessage::PrePrepareMessage(m),
                                );
                                lemma_pq_insert_monotone(
                                    ea,
                                    PrepareQuorumMessage::PrepareMessage(prep),
                                );
                                lemma_step_monotone(e1, q, id);
                                lemma_entry_monotone_trans(e0, ea, e1);
                                lemma_entry_monotone_trans(e0, e1, predicates_step(e1, q, id));
                            } else {
                                lemma_prefix_refl(e0.prepare_quorum);
                                lemma_prefix_refl(e0.commit_quorum);
                            }
                        }
                    },
                    PBFTMessage::Prepare(m) => {
                        if log_has(pre.log@, op) {
                            let e0 = model(log_get(pre.log@, op));
                            let e1 = pq_insert(e0, PrepareQuorumMessage::PrepareMessage(m));
                            lemma_pq_insert_monotone(e0, PrepareQuorumMessage::PrepareMessage(m));
                            lemma_step_monotone(e1, q, id);
                            lemma_entry_monotone_trans(e0, e1, predicates_step(e1, q, id));
                        }
                    },
                    PBFTMessage::Commit(m) => {
                        if log_has(pre.log@, op) {
                            let e0 = model(log_get(pre.log@, op));
                            let e1 = cq_insert(e0, m);
                            lemma_cq_insert_monotone(e0, m);
                            lemma_step_monotone(e1, q, id);
                            lemma_entry_monotone_trans(e0, e1, predicates_step(e1, q, id));
                        }
                    },
                    PBFTMessage::ClientResponse(_) => {},
                }
                lemma_log_step_monotone(pre.log@, mid.log@, q, op);
                lemma_gc_monotone(mid, *self, op);
                assert forall|o: u32| #![auto] log_has(pre.log@, o) implies (log_has(
                    self.log@,
                    o,
                ) && entry_monotone(
                    model(log_get(pre.log@, o)),
                    model(log_get(self.log@, o)),
                )) || self.cl_reqs@.contains(o) by {
                    if log_has(self.log@, o) && !self.cl_reqs@.contains(o) {
                        lemma_entry_monotone_trans(
                            model(log_get(pre.log@, o)),
                            model(log_get(mid.log@, o)),
                            model(log_get(self.log@, o)),
                        );
                    }
                }
            }

            // the emitted records only grow
            assert(pre.results@.is_prefix_of(self.results@)) by {
                assert(pre.results@ =~= self.results@.subrange(0, pre.results@.len() as int));
            }
        }
        r
    }

    /// Handles an incoming client request. Only the primary acts: it
    /// assigns a sequence number, opens a log entry that already holds
    /// its own PrePrepare vote, and broadcasts the PrePrepare to all
    /// peers. A non-primary drops the request.
    pub fn handle_client_request(&mut self, msg_in: ClientRequest, time: Time) -> (r: Option<
        Output,
    >)
        requires
            old(self).wf(),
            old(self).next_seq_num < u64::MAX,
        ensures
            final (self).wf(),
            replica_frame(*old(self), *final (self)),
            final (self).cl_reqs@ == old(self).cl_reqs@,
            client_request_post(*old(self), *final (self), msg_in, time, r),
    {
        if self.is_primary() {
            self.results.push(
                Record {
                    time,
                    node_id: Some(self.id),
                    body: RecordBody::Progress { operation: msg_in.operation, phase: Phase::Request },
                },
            );
            let seq_number = self.next_seq_num();
            let mut entry = LogEntry::new(self.current_view, seq_number, msg_in);
            let preprepare = PrePrepareMessage::new(msg_in, self.current_view, seq_number, self.id);
            entry.insert_prepare_quorum(PrepareQuorumMessage::PrePrepareMessage(preprepare));
            proof {
                assert(entry.prepare_quorum@ =~= seq![
                    PrepareQuorumMessage::PrePrepareMessage(preprepare),
                ]);
            }

            let idx_opt = find_log_index(&self.log, msg_in.operation);
            match idx_opt {
                Some(i) => {
                    proof {
                        lemma_log_idx(old(self).log@, old(self).quorum_size, msg_in.operation,
                            i as int);
                    }
                    let _previous = self.log.remove(i);
                    self.log.insert(i, (msg_in.operation, entry));
                    proof {
                        assert forall|j: int|
                            0 <= j < old(self).log@.len() && j != i implies self.log@[j] == old(
                            self,
                        ).log@[j] by {}
                        assert(log_wf(self.log@, self.quorum_size));
                        lemma_log_idx(self.log@, self.quorum_size, msg_in.operation, i as int);
                    }
                },
                None => {
                    self.log.push((msg_in.operation, entry));
                    proof {
                        assert(log_wf(self.log@, self.quorum_size));
                    }
                },
            }
            return Some(create_peer_broadcast_output(
                PBFTMessage::PrePrepare(preprepare),
                &self.peers,
            ));
        }
        None
    }

    /// Handles an incoming PrePrepare. Accepted only from the primary
    /// of the current view: the replica finds or opens the entry for
    /// the operation, emits a `pre-prepared` record, inserts the
    /// PrePrepare and its own Prepare vote into the Prepare quorum
    /// set, broadcasts that Prepare to all peers, and runs the
    /// predicate update.
    pub fn handle_pre_prepare_message(&mut self, msg_in: PrePrepareMessage, time: Time) -> (r:
        Option<Output>)
        requires
            old(self).wf(),
        ensures
            final (self).wf(),
            replica_frame(*old(self), *final (self)),
            final (self).cl_reqs@ == old(self).cl_reqs@,
            pre_prepare_post(*old(self), *final (self), msg_in, time, r),
    {
        let primary = self.curr_primary();
        if primary == msg_in.sender_id {
            let op = msg_in.c_req.operation;
            let ghost pre = *self;
            let idx_opt = find_log_index(&self.log, op);
            let i: usize = match idx_opt {
                Some(i) => {
                    proof {
                        lemma_log_idx(old(self).log@, old(self).quorum_size, op, i as int);
                    }
                    i
                },
                None => {
                    let entry = LogEntry::new(msg_in.view, msg_in.seq_number, msg_in.c_req);
                    self.log.push((op, entry));
                    proof {
                        assert(log_wf(self.log@, self.quorum_size));
                        lemma_log_idx(self.log@, self.quorum_size, op, self.log@.len() - 1);
                    }
                    self.log.len() - 1
                },
            };
            let ghost e0 = model(self.log@[i as int].1);
            self.results.push(
                Record {
                    time,
                    node_id: Some(self.id),
                    body: RecordBody::Progress { operation: op, phase: Phase::PrePrepared },
                },
            );
            let mut pair = self.log.remove(i);
            let prepare = PrepareMessage::new(
                pair.1.client_request,
                pair.1.view,
                pair.1.seq_number,
                self.id,
            );
            proof {
                lemma_has_preprepare_insert(
                    pair.1.prepare_quorum@,
                    PrepareQuorumMessage::PrePrepareMessage(msg_in),
                );
                lemma_has_preprepare_insert(
                    set_insert(
                        pair.1.prepare_quorum@,
                        PrepareQuorumMessage::PrePrepareMessage(msg_in),
                    ),
                    PrepareQuorumMessage::PrepareMessage(prepare),
                );
            }
            pair.1.insert_prepare_quorum(PrepareQuorumMessage::PrePrepareMessage(msg_in));
            pair.1.insert_prepare_quorum(PrepareQuorumMessage::PrepareMessage(prepare));
            let ghost e1 = pq_insert(
                pq_insert(e0, PrepareQuorumMessage::PrePrepareMessage(msg_in)),
                PrepareQuorumMessage::PrepareMessage(prepare),
            );
            self.log.insert(i, pair);
            let ghost mid = *self;
            proof {
                assert(model(pair.1) =~= e1);
                assert forall|j: int|
                    0 <= j < mid.log@.len() && j != i implies mid.log@[j] == pre.log@.push(
                    (op, pair.1),
                ).update(i as int, (op, pair.1))[j] by {}
                assert(log_wf(mid.log@, mid.quorum_size));
                lemma_log_idx(mid.log@, mid.quorum_size, op, i as int);
            }
            let output = create_peer_broadcast_output(PBFTMessage::Prepare(prepare), &self.peers);
            let r = self.update_predicates(op, output, time);
            proof {
                let q = old(self).quorum_size;
                let id = old(self).id;
                assert(self.results@ =~= old(self).results@ + (seq![
                    Record {
                        time,
                        node_id: Some(id),
                        body: RecordBody::Progress { operation: op, phase: Phase::PrePrepared },
                    },
                ] + step_records(e1, q, id, op, time)));
            }
            return r;
        }
        None
    }

    /// Handles an incoming Prepare vote: inserts it into the entry's
    /// Prepare quorum set and runs the predicate update; without an
    /// entry, opens one holding just this vote.
    pub fn handle_prepare_message(&mut self, msg_in: PrepareMessage, time: Time) -> (r: Option<
        Output,
    >)
        requires
            old(self).wf(),
        ensures
            final (self).wf(),
            replica_frame(*old(self), *final (self)),
            final (self).cl_reqs@ == old(self).cl_reqs@,
            prepare_post(*old(self), *final (self), msg_in, time, r),
    {
        let op = msg_in.c_req.operation;
        let idx_opt = find_log_index(&self.log, op);
        match idx_opt {
            Some(i) => {
                proof {
                    lemma_log_idx(old(self).log@, old(self).quorum_size, op, i as int);
                }
                let mut pair = self.log.remove(i);
                proof {
                    lemma_has_preprepare_insert(
                        pair.1.prepare_quorum@,
                        PrepareQuorumMessage::PrepareMessage(msg_in),
                    );
                }
                pair.1.insert_prepare_quorum(PrepareQuorumMessage::PrepareMessage(msg_in));
                self.log.insert(i, pair);
                proof {
                    assert forall|j: int|
                        0 <= j < old(self).log@.len() && j != i implies self.log@[j] == old(
                        self,
                    ).log@[j] by {}
                    assert(log_wf(self.log@, self.quorum_size));
                    lemma_log_idx(self.log@, self.quorum_size, op, i as int);
                }
                let r = self.update_predicates(op, Vec::new(), time);
                proof {
                    let e0 = model(log_get(old(self).log@, op));
                    let e1 = pq_insert(e0, PrepareQuorumMessage::PrepareMessage(msg_in));
                    let q = old(self).quorum_size;
                    let id = old(self).id;
                    assert(self.results@ =~= old(self).results@ + step_records(e1, q, id, op,
                        time));
                    assert(Seq::<(u32, PBFTMessage)>::empty() + step_extra_output(e1, q, id,
                        old(self).peers@) =~= step_extra_output(e1, q, id, old(self).peers@));
                }
                r
            },
            None => {
                let mut entry = LogEntry::new(msg_in.view, msg_in.seq_number, msg_in.c_req);
                entry.insert_prepare_quorum(PrepareQuorumMessage::PrepareMessage(msg_in));
                proof {
                    assert(entry.prepare_quorum@ =~= seq![
                        PrepareQuorumMessage::PrepareMessage(msg_in),
                    ]);
                }
                self.log.push((op, entry));
                proof {
                    assert(log_wf(self.log@, self.quorum_size));
                }
                None
            },
        }
    }

    /// Handles an incoming Commit vote: inserts it into the entry's
    /// Commit quorum set and runs the predicate update; without an
    /// entry, opens one holding just this vote.
    pub fn handle_commit_message(&mut self, msg_in: CommitMessage, time: Time) -> (r: Option<
        Output,
    >)
        requires
            old(self).wf(),
        ensures
            final (self).wf(),
            replica_frame(*old(self), *final (self)),
            final (self).cl_reqs@ == old(self).cl_reqs@,
            commit_post(*old(self), *final (self), msg_in, time, r),
    {
        let op = msg_in.c_req.operation;
        let idx_opt = find_log_index(&self.log, op);
        match idx_opt {
            Some(i) => {
                proof {
                    lemma_log_idx(old(self).log@, old(self).quorum_size, op, i as int);
                }
                let mut pair = self.log.remove(i);
                pair.1.insert_commit_quorum(msg_in);
                self.log.insert(i, pair);
                proof {
                    assert forall|j: int|
                        0 <= j < old(self).log@.len() && j != i implies self.log@[j] == old(
                        self,
                    ).log@[j] by {}
                    assert(log_wf(self.log@, self.quorum_size));
                    lemma_log_idx(self.log@, self.quorum_size, op, i as int);
                }
                let r = self.update_predicates(op, Vec::new(), time);
                proof {
                    let e0 = model(log_get(old(self).log@, op));
                    let e1 = cq_insert(e0, msg_in);
                    let q = old(self).quorum_size;
                    let id = old(self).id;
                    assert(self.results@ =~= old(self).results@ + step_records(e1, q, id, op,
                        time));
                    assert(Seq::<(u32, PBFTMessage)>::empty() + step_extra_output(e1, q, id,
                        old(self).peers@) =~= step_extra_output(e1, q, id, old(self).peers@));
                }
                r
            },
            None => {
                let mut entry = LogEntry::new(msg_in.view, msg_in.seq_number, msg_in.c_req);
                entry.insert_commit_quorum(msg_in);
                proof {
                    assert(entry.commit_quorum@ =~= seq![msg_in]);
                }
                self.log.push((op, entry));
                proof {
                    assert(log_wf(self.log@, self.quorum_size));
                }
                None
            },
        }
    }
}

} // verus!
