//! The client transaction manager.
//!
//! Every outgoing call gets the next transaction id and a fresh entry in the
//! pending-call table; the Call envelope carries the id, and the matching
//! Result envelope is routed back solely by it. Arrival order is irrelevant:
//! the duplex connection promises nothing about the order of Result frames,
//! so correctness rests on the id correlation alone. Calls are independent:
//! one call's latency or failure never blocks or corrupts another's. A
//! Result that matches no pending entry is reported as a protocol violation,
//! never silently dropped; when the connection fails, every pending call is
//! resolved with a closed-connection error rather than hanging.

use vstd::prelude::*;
use vstd::slice::slice_to_vec;
use crate::errors::ClientError;
use crate::wire::{
    decode_result, encode_call, spec_decode_result, spec_encode_call, spec_encode_result,
    CallEnvelope, CallView, Outcome, OutcomeView, ResultView,
};

verus! {

broadcast use vstd::seq::group_seq_axioms;

/// One pending call as the specification sees it: the transaction id the
/// caller waits on, and the delivery slot, empty until the matching Result
/// arrives.
pub struct EntryView {
    pub txid: u64,
    pub slot: Option<OutcomeView>,
}

/// The whole manager as the specification sees it: the next transaction id
/// to hand out, the pending-call table in registration order, and whether
/// the connection has been lost.
pub struct ClientView {
    pub next_txid: u64,
    pub entries: Seq<EntryView>,
    pub closed: bool,
}

impl ClientView {
    /// The manager's invariant: pending transaction ids are pairwise
    /// distinct — at most one entry per id — and every pending id was
    /// handed out before the counter's current value.
    pub open spec fn wf(self) -> bool {
        &&& forall|i: int, j: int|
            #![trigger self.entries[i], self.entries[j]]
            0 <= i < self.entries.len() && 0 <= j < self.entries.len() && i != j
                ==> self.entries[i].txid != self.entries[j].txid
        &&& forall|i: int|
            0 <= i < self.entries.len() ==> #[trigger] self.entries[i].txid < self.next_txid
    }
}

/// Whether some pending entry carries transaction id `t`.
pub open spec fn has_entry(m: ClientView, t: u64) -> bool {
    exists|i: int| 0 <= i < m.entries.len() && #[trigger] m.entries[i].txid == t
}

/// The index of the pending entry for `t`; under `wf` it is the only one.
pub open spec fn entry_idx(m: ClientView, t: u64) -> int {
    choose|i: int| 0 <= i < m.entries.len() && #[trigger] m.entries[i].txid == t
}

/// Whether a call with id `t` is pending and still awaiting its Result.
pub open spec fn waiting(m: ClientView, t: u64) -> bool {
    has_entry(m, t) && m.entries[entry_idx(m, t)].slot is None
}

/// Starting a call: the next transaction id is allocated, a fresh empty
/// entry joins the table, and the Call envelope to transmit is built around
/// that id. Yields the new state, the id, and the frame.
pub open spec fn spec_start(m: ClientView, tag: Seq<u8>, params: Seq<u8>) -> (ClientView, u64, Seq<
    u8,
>)
    recommends
        !m.closed,
        m.next_txid < u64::MAX,
{
    (
        ClientView {
            next_txid: (m.next_txid + 1) as u64,
            entries: m.entries.push(EntryView { txid: m.next_txid, slot: None }),
            closed: m.closed,
        },
        m.next_txid,
        spec_encode_call(CallView { tag, txid: m.next_txid, params }),
    )
}

/// Routing one inbound frame: a frame that is no Result envelope is a
/// decode error; a Result whose id has no pending, still-empty entry is a
/// protocol violation; both leave the state exactly as it was. Otherwise
/// the one entry with that id receives the outcome and nothing else moves.
pub open spec fn spec_deliver(m: ClientView, frame: Seq<u8>) -> (ClientView, Result<
    u64,
    ClientError,
>) {
    match spec_decode_result(frame) {
        None => (m, Err(ClientError::Decode)),
        Some(r) => if waiting(m, r.txid) {
            let i = entry_idx(m, r.txid);
            (
                ClientView {
                    entries: m.entries.update(i, EntryView { txid: r.txid, slot: Some(r.outcome) }),
                    ..m
                },
                Ok(r.txid),
            )
        } else {
            (m, Err(ClientError::ProtocolViolation))
        },
    }
}

/// A caller collecting the result of call `t`: an id with no entry is a
/// protocol violation; a delivered outcome is handed over and the entry
/// retired; an empty slot on a closed connection resolves the call with a
/// closed-connection error instead of hanging; an empty slot on a live
/// connection means the caller keeps waiting and nothing changes.
pub open spec fn spec_take(m: ClientView, t: u64) -> (ClientView, Result<
    Option<OutcomeView>,
    ClientError,
>) {
    if !has_entry(m, t) {
        (m, Err(ClientError::ProtocolViolation))
    } else {
        let i = entry_idx(m, t);
        match m.entries[i].slot {
            Some(o) => (ClientView { entries: m.entries.remove(i), ..m }, Ok(Some(o))),
            None => if m.closed {
                (ClientView { entries: m.entries.remove(i), ..m }, Err(ClientError::ConnectionClosed))
            } else {
                (m, Ok(None))
            },
        }
    }
}

/// Abandoning call `t` (the caller stopped waiting): its entry, if any, is
/// removed, so a late Result for that id is reported as a protocol
/// violation rather than delivered to nobody.
pub open spec fn spec_abandon(m: ClientView, t: u64) -> (ClientView, bool) {
    if has_entry(m, t) {
        (ClientView { entries: m.entries.remove(entry_idx(m, t)), ..m }, true)
    } else {
        (m, false)
    }
}

/// The exec result of collecting a call, as the specification sees it.
pub open spec fn take_view(r: Result<Option<Outcome>, ClientError>) -> Result<
    Option<OutcomeView>,
    ClientError,
> {
    match r {
        Ok(Some(o)) => Ok(Some(o@)),
        Ok(None) => Ok(None),
        Err(e) => Err(e),
    }
}

/// One pending call owned by the manager.
struct PendingEntry {
    txid: u64,
    slot: Option<Outcome>,
}

impl View for PendingEntry {
    type V = EntryView;

    closed spec fn view(&self) -> EntryView {
        EntryView {
            txid: self.txid,
            slot: match &self.slot {
                Some(o) => Some(o@),
                None => None,
            },
        }
    }
}

/// The client transaction manager. One instance owns one connection's
/// pending-call table and transaction counter; nothing is shared across
/// connections.
pub struct ClientManager {
    next_txid: u64,
    entries: Vec<PendingEntry>,
    closed: bool,
}

impl View for ClientManager {
    type V = ClientView;

    closed spec fn view(&self) -> ClientView {
        ClientView {
            next_txid: self.next_txid,
            entries: Seq::new(self.entries@.len(), |i: int| self.entries@[i]@),
            closed: self.closed,
        }
    }
}

impl ClientManager {
    /// The invariant of the manager, kept by every operation.
    pub open spec fn wf(&self) -> bool {
        self@.wf()
    }

    /// A fresh manager: ids start at 0, no call is pending, the connection
    /// is live.
    pub fn new() -> (m: ClientManager)
        ensures
            m@ == (ClientView {
                next_txid: 0u64,
                entries: Seq::<EntryView>::empty(),
                closed: false,
            }),
            m.wf(),
    {
        let m = ClientManager { next_txid: 0, entries: Vec::new(), closed: false };
        proof {
            assert(m@.entries =~= Seq::<EntryView>::empty());
        }
        m
    }

    /// How many calls are pending.
    pub fn pending_count(&self) -> (n: usize)
        ensures
            n == self@.entries.len(),
    {
        self.entries.len()
    }

    /// Whether another call can still be started before the transaction
    /// counter is exhausted.
    pub fn can_start(&self) -> (r: bool)
        ensures
            r == (self@.next_txid < u64::MAX),
    {
        self.next_txid < u64::MAX
    }

    /// Whether the connection has been reported lost.
    pub fn is_closed(&self) -> (r: bool)
        ensures
            r == self@.closed,
    {
        self.closed
    }

    /// The index of the pending entry for `txid`, if one exists.
    fn find_index(&self, txid: u64) -> (r: Option<usize>)
        ensures
            (match r {
                Some(i) => 0 <= i < self@.entries.len() && self@.entries[i as int].txid == txid,
                None => !has_entry(self@, txid),
            }),
    {
        let mut i: usize = 0;
        let n: usize = self.entries.len();
        while i < n
            invariant
                n == self@.entries.len(),
                i <= n,
                forall|j: int| 0 <= j < i ==> self@.entries[j].txid != txid,
            decreases n - i,
        {
            if self.entries[i].txid == txid {
                return Some(i);
            }
            i = i + 1;
        }
        None
    }

    /// Starts a call: allocates the next transaction id, registers the
    /// pending entry, and returns the id with the encoded Call frame to
    /// transmit. On a closed connection nothing is registered and the
    /// caller gets the closed-connection error at once.
    pub fn start_call(&mut self, tag: &[u8], params: &[u8]) -> (r: Result<(u64, Vec<u8>), ClientError>)
        requires
            old(self).wf(),
            old(self)@.next_txid < u64::MAX,
        ensures
            final(self).wf(),
            old(self)@.closed ==> r == Err::<(u64, Vec<u8>), ClientError>(
                ClientError::ConnectionClosed,
            ) && final(self)@ == old(self)@,
            !old(self)@.closed ==> r is Ok && ({
                let (m2, t, f) = spec_start(old(self)@, tag@, params@);
                &&& final(self)@ == m2
                &&& r->Ok_0.0 == t
                &&& r->Ok_0.1@ == f
            }),
    {
        if self.closed {
            return Err(ClientError::ConnectionClosed);
        }
        let txid = self.next_txid;
        self.next_txid = self.next_txid + 1;
        self.entries.push(PendingEntry { txid, slot: None });
        let frame = encode_call(
            &CallEnvelope { tag: slice_to_vec(tag), txid, params: slice_to_vec(params) },
        );
        proof {
            let (m2, t, f) = spec_start(old(self)@, tag@, params@);
            assert(self@.entries =~= m2.entries);
            lemma_start_preserves_wf(old(self)@, tag@, params@);
        }
        Ok((txid, frame))
    }

    /// Routes one inbound frame to the pending call it answers, returning
    /// the transaction id it was delivered to. Errors report a frame that is
    /// no Result envelope, or an id with no pending empty entry; either way
    /// the table is untouched, so no other call is affected.
    pub fn deliver_result(&mut self, frame: &[u8]) -> (r: Result<u64, ClientError>)
        requires
            old(self).wf(),
        ensures
            final(self).wf(),
            final(self)@ == spec_deliver(old(self)@, frame@).0,
            r == spec_deliver(old(self)@, frame@).1,
    {
        let envelope = match decode_result(frame) {
            Ok(e) => e,
            Err(_) => {
                return Err(ClientError::Decode);
            },
        };
        let txid = envelope.txid;
        match self.find_index(txid) {
            None => Err(ClientError::ProtocolViolation),
            Some(i) => {
                if self.entries[i].slot.is_some() {
                    proof {
                        lemma_entry_idx_of(old(self)@, txid, i as int);
                    }
                    Err(ClientError::ProtocolViolation)
                } else {
                    proof {
                        lemma_entry_idx_of(old(self)@, txid, i as int);
                    }
                    let ghost oc = envelope.outcome@;
                    let mut e = self.entries.remove(i);
                    e.slot = Some(envelope.outcome);
                    self.entries.insert(i, e);
                    proof {
                        assert(self@.entries =~~= old(self)@.entries.update(
                            i as int,
                            (EntryView { txid, slot: Some(oc) }),
                        ));
                        lemma_update_preserves_wf(
                            old(self)@,
                            i as int,
                            (EntryView { txid, slot: Some(oc) }),
                        );
                    }
                    Ok(txid)
                }
            },
        }
    }

    /// Collects the result of call `txid` for its caller. A delivered
    /// outcome retires the entry; an undelivered one on a closed connection
    /// resolves the call with the closed-connection error; an undelivered
    /// one on a live connection leaves the caller waiting and the manager
    /// unchanged.
    pub fn take_result(&mut self, txid: u64) -> (r: Result<Option<Outcome>, ClientError>)
        requires
            old(self).wf(),
        ensures
            final(self).wf(),
            final(self)@ == spec_take(old(self)@, txid).0,
            take_view(r) == spec_take(old(self)@, txid).1,
    {
        match self.find_index(txid) {
            None => Err(ClientError::ProtocolViolation),
            Some(i) => {
                proof {
                    lemma_entry_idx_of(old(self)@, txid, i as int);
                }
                if self.entries[i].slot.is_some() {
                    let e = self.entries.remove(i);
                    proof {
                        assert(self@.entries =~~= old(self)@.entries.remove(i as int));
                        lemma_remove_preserves_wf(old(self)@, i as int);
                    }
                    match e.slot {
                        Some(o) => Ok(Some(o)),
                        None => Err(ClientError::ProtocolViolation),
                    }
                } else if self.closed {
                    let _ = self.entries.remove(i);
                    proof {
                        assert(self@.entries =~~= old(self)@.entries.remove(i as int));
                        lemma_remove_preserves_wf(old(self)@, i as int);
                    }
                    Err(ClientError::ConnectionClosed)
                } else {
                    Ok(None)
                }
            },
        }
    }

    /// Abandons call `txid`: the caller stopped waiting, so its entry is
    /// dropped and a late Result for this id will be reported as a protocol
    /// violation.
    pub fn abandon(&mut self, txid: u64) -> (r: bool)
        requires
            old(self).wf(),
        ensures
            final(self).wf(),
            final(self)@ == spec_abandon(old(self)@, txid).0,
            r == spec_abandon(old(self)@, txid).1,
    {
        match self.find_index(txid) {
            None => false,
            Some(i) => {
                proof {
                    lemma_entry_idx_of(old(self)@, txid, i as int);
                }
                let _ = self.entries.remove(i);
                proof {
                    assert(self@.entries =~~= old(self)@.entries.remove(i as int));
                    lemma_remove_preserves_wf(old(self)@, i as int);
                }
                true
            },
        }
    }

    /// The connection failed: every pending call will now resolve with the
    /// closed-connection error instead of hanging, and no new call starts.
    pub fn connection_closed(&mut self)
        requires
            old(self).wf(),
        ensures
            final(self).wf(),
            final(self)@ == (ClientView { closed: true, ..old(self)@ }),
    {
        self.closed = true;
    }
}

/// Under the invariant, an entry found to carry `t` is the entry `entry_idx`
/// picks, and `t` is pending.
proof fn lemma_entry_idx_of(m: ClientView, t: u64, i: int)
    requires
        m.wf(),
        0 <= i < m.entries.len(),
        m.entries[i].txid == t,
    ensures
        has_entry(m, t),
        entry_idx(m, t) == i,
{
    assert(has_entry(m, t));
    let j = entry_idx(m, t);
    if j != i {
        assert(m.entries[i].txid != m.entries[j].txid);
    }
}

/// Starting a call preserves the invariant: the new id is fresh because
/// every pending id is below the counter.
proof fn lemma_start_preserves_wf(m: ClientView, tag: Seq<u8>, params: Seq<u8>)
    requires
        m.wf(),
        m.next_txid < u64::MAX,
    ensures
        spec_start(m, tag, params).0.wf(),
{
    let m2 = spec_start(m, tag, params).0;
    assert forall|i: int, j: int|
        0 <= i < m2.entries.len() && 0 <= j < m2.entries.len() && i != j implies m2.entries[i].txid
        != m2.entries[j].txid by {
        if i < m.entries.len() && j < m.entries.len() {
            assert(m.entries[i].txid != m.entries[j].txid);
        } else if i < m.entries.len() {
            assert(m.entries[i].txid < m.next_txid);
        } else {
            assert(m.entries[j].txid < m.next_txid);
        }
    }
}

/// Replacing an entry by one with the same id preserves the invariant.
proof fn lemma_update_preserves_wf(m: ClientView, i: int, e: EntryView)
    requires
        m.wf(),
        0 <= i < m.entries.len(),
        e.txid == m.entries[i].txid,
    ensures
        (ClientView { entries: m.entries.update(i, e), ..m }).wf(),
{
}

/// Removing an entry preserves the invariant.
proof fn lemma_remove_preserves_wf(m: ClientView, i: int)
    requires
        m.wf(),
        0 <= i < m.entries.len(),
    ensures
        (ClientView { entries: m.entries.remove(i), ..m }).wf(),
{
    let m2 = ClientView { entries: m.entries.remove(i), ..m };
    assert forall|a: int, b: int|
        0 <= a < m2.entries.len() && 0 <= b < m2.entries.len() && a != b implies m2.entries[a].txid
        != m2.entries[b].txid by {
        let a0 = if a < i { a } else { a + 1 };
        let b0 = if b < i { b } else { b + 1 };
        assert(m2.entries[a] == m.entries[a0]);
        assert(m2.entries[b] == m.entries[b0]);
        assert(m.entries[a0].txid != m.entries[b0].txid);
    }
    assert forall|a: int| 0 <= a < m2.entries.len() implies m2.entries[a].txid < m2.next_txid by {
        let a0 = if a < i { a } else { a + 1 };
        assert(m2.entries[a] == m.entries[a0]);
    }
}

/// Uniqueness law: two calls started while both are still outstanding never
/// share a transaction id, and both stand pending side by side afterwards.
pub proof fn lemma_txid_uniqueness(
    m: ClientView,
    tag1: Seq<u8>,
    params1: Seq<u8>,
    tag2: Seq<u8>,
    params2: Seq<u8>,
)
    requires
        m.wf(),
        !m.closed,
        m.next_txid + 1 < u64::MAX,
    ensures
        ({
            let (m1, t1, f1) = spec_start(m, tag1, params1);
            let (m2, t2, f2) = spec_start(m1, tag2, params2);
            &&& t1 != t2
            &&& waiting(m2, t1)
            &&& waiting(m2, t2)
        }),
{
    let (m1, t1, f1) = spec_start(m, tag1, params1);
    let (m2, t2, f2) = spec_start(m1, tag2, params2);
    lemma_start_preserves_wf(m, tag1, params1);
    lemma_start_preserves_wf(m1, tag2, params2);
    let n = m.entries.len() as int;
    assert(m2.entries[n].txid == t1);
    assert(m2.entries[n + 1].txid == t2);
    lemma_entry_idx_of(m2, t1, n);
    lemma_entry_idx_of(m2, t2, n + 1);
}

/// Any two distinct pending entries carry distinct transaction ids: the
/// general form of the uniqueness law, read directly off the invariant.
pub proof fn lemma_pending_ids_distinct(m: ClientView, i: int, j: int)
    requires
        m.wf(),
        0 <= i < m.entries.len(),
        0 <= j < m.entries.len(),
        i != j,
    ensures
        m.entries[i].txid != m.entries[j].txid,
{
}

/// Protocol-violation law: a Result envelope whose transaction id has no
/// pending, still-empty entry is reported and changes nothing — every other
/// pending call is left exactly as it was.
pub proof fn lemma_unknown_txid_reported(m: ClientView, r: ResultView)
    requires
        m.wf(),
        !waiting(m, r.txid),
    ensures
        spec_deliver(m, spec_encode_result(r)) == (m, Err::<u64, ClientError>(
            ClientError::ProtocolViolation,
        )),
{
    crate::wire::lemma_result_round_trip(r);
}

/// Closed-connection law: once the connection is reported lost, every
/// pending call whose Result never arrived resolves with the
/// closed-connection error — and its entry is retired — rather than waiting
/// forever.
pub proof fn lemma_closed_resolves_pending(m: ClientView, t: u64)
    requires
        m.wf(),
        waiting(m, t),
    ensures
        ({
            let mc = ClientView { closed: true, ..m };
            spec_take(mc, t).1 == Err::<Option<OutcomeView>, ClientError>(
                ClientError::ConnectionClosed,
            )
        }),
{
    let mc = ClientView { closed: true, ..m };
    let i = entry_idx(m, t);
    assert(mc.entries[i].txid == t);
    lemma_entry_idx_of(mc, t, i);
}

/// Transaction-isolation law: with two calls pending, delivering their
/// Results in the opposite order of the calls still hands each caller its
/// own outcome, delivered under its own transaction id.
pub proof fn lemma_out_of_order_isolation(
    m: ClientView,
    t1: u64,
    o1: OutcomeView,
    t2: u64,
    o2: OutcomeView,
)
    requires
        m.wf(),
        t1 != t2,
        waiting(m, t1),
        waiting(m, t2),
    ensures
        ({
            let f1 = spec_encode_result((ResultView { txid: t1, outcome: o1 }));
            let f2 = spec_encode_result((ResultView { txid: t2, outcome: o2 }));
            let (ma, ra) = spec_deliver(m, f2);
            let (mb, rb) = spec_deliver(ma, f1);
            let (mc, qa) = spec_take(mb, t1);
            &&& ra == Ok::<u64, ClientError>(t2)
            &&& rb == Ok::<u64, ClientError>(t1)
            &&& qa == Ok::<Option<OutcomeView>, ClientError>(Some(o1))
            &&& spec_take(mc, t2).1 == Ok::<Option<OutcomeView>, ClientError>(Some(o2))
        }),
{
    crate::wire::lemma_result_round_trip((ResultView { txid: t1, outcome: o1 }));
    crate::wire::lemma_result_round_trip((ResultView { txid: t2, outcome: o2 }));
    let f1 = spec_encode_result((ResultView { txid: t1, outcome: o1 }));
    let f2 = spec_encode_result((ResultView { txid: t2, outcome: o2 }));
    let i1 = entry_idx(m, t1);
    let i2 = entry_idx(m, t2);
    assert(i1 != i2);

    let (ma, ra) = spec_deliver(m, f2);
    assert(ma.entries == m.entries.update(i2, (EntryView { txid: t2, slot: Some(o2) })));
    lemma_update_preserves_wf(m, i2, (EntryView { txid: t2, slot: Some(o2) }));
    assert(ma.entries[i1].txid == t1);
    lemma_entry_idx_of(ma, t1, i1);
    assert(waiting(ma, t1));

    let (mb, rb) = spec_deliver(ma, f1);
    assert(mb.entries == ma.entries.update(i1, (EntryView { txid: t1, slot: Some(o1) })));
    lemma_update_preserves_wf(ma, i1, (EntryView { txid: t1, slot: Some(o1) }));
    assert(mb.entries[i1] == (EntryView { txid: t1, slot: Some(o1) }));
    assert(mb.entries[i2] == (EntryView { txid: t2, slot: Some(o2) }));
    lemma_entry_idx_of(mb, t1, i1);

    let (mc, qa) = spec_take(mb, t1);
    assert(mc.entries == mb.entries.remove(i1));
    lemma_remove_preserves_wf(mb, i1);
    let j2 = if i2 < i1 { i2 } else { i2 - 1 };
    assert(mc.entries[j2] == mb.entries[i2]);
    lemma_entry_idx_of(mc, t2, j2);
    assert(spec_take(mc, t2).1 == Ok::<Option<OutcomeView>, ClientError>(Some(o2)));
}

} // verus!
