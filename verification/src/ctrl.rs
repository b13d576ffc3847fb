//! The controller: its queues, what it has learnt of the device, and the
//! protocol of each operation as a sequence of steps that the host carries
//! out.

use vstd::prelude::*;
use crate::bus::{Fetch, Next, Reply, Step, Store};
use crate::bits::{field32, pair16};
use crate::cmd::Cmd;
use crate::id::{AsyncEventConfig, FT_ASYNC, FT_NQ};
use crate::err::{NVMeError, Result};
use crate::queue::{Cqe, Queue, QueueModel};
use crate::ram::Dma;
use crate::reg::{doorbells_fit, lemma_doorbells_fit};

verus! {

/// What the controller reported of itself at bring-up.
pub struct CtrlData {
    pub serial: String,
    pub model: String,
    pub firm: String,
    pub mts: usize,
    pub mqe: u16,
    pub min_pg: usize,
}

/// Names a command in flight: the queue it was submitted on and the
/// identifier it was given.
#[derive(Clone, Copy, Debug, PartialEq, Eq)]
pub struct Ticket {
    pub qid: u16,
    pub cid: u16,
}

/// A controller as a value.
pub struct CtrlModel {
    pub mmio: usize,
    pub dstrd: u8,
    pub admin: Option<QueueModel>,
    pub io: Seq<QueueModel>,
    pub serial: Seq<char>,
    pub model: Seq<char>,
    pub firm: Seq<char>,
    pub mts: usize,
    pub mqe: u16,
    pub min_pg: usize,
    pub active: bool,
    pub rr_cnt: u16,
}

impl CtrlModel {
    /// The doorbells are within reach, the admin queue is queue 0, and the
    /// I/O queues are well formed and stand in ascending order of their
    /// identifiers, none of which is 0.
    pub open spec fn wf(self) -> bool {
        &&& doorbells_fit(self.dstrd)
        &&& (self.admin matches Some(q) ==> q.wf() && q.qid == 0)
        &&& forall|i: int|
            0 <= i < self.io.len() ==> (#[trigger] self.io[i]).wf() && self.io[i].qid >= 1
        &&& forall|i: int, j: int|
            0 <= i < j < self.io.len() ==> (#[trigger] self.io[i]).qid < (
            #[trigger] self.io[j]).qid
    }

    /// A controller before bring-up.
    pub open spec fn fresh(mmio: usize) -> CtrlModel {
        CtrlModel {
            mmio,
            dstrd: 0,
            admin: None,
            io: Seq::empty(),
            serial: Seq::empty(),
            model: Seq::empty(),
            firm: Seq::empty(),
            mts: 0,
            mqe: 0,
            min_pg: 0,
            active: true,
            rr_cnt: 0,
        }
    }

    /// Whether there is a queue `qid`: the admin queue for 0, an I/O queue
    /// otherwise.
    pub open spec fn knows(self, qid: u16) -> bool {
        if qid == 0 {
            self.admin is Some
        } else {
            exists|i: int| 0 <= i < self.io.len() && (#[trigger] self.io[i]).qid == qid
        }
    }

    /// Where I/O queue `qid` stands among the I/O queues.
    pub open spec fn place(self, qid: u16) -> int {
        choose|i: int| 0 <= i < self.io.len() && (#[trigger] self.io[i]).qid == qid
    }

    /// Queue `qid`.
    pub open spec fn queue(self, qid: u16) -> QueueModel {
        if qid == 0 {
            self.admin.unwrap()
        } else {
            self.io[self.place(qid)]
        }
    }

    /// The controller with `q` in the place of queue `qid`.
    pub open spec fn with_queue(self, qid: u16, q: QueueModel) -> CtrlModel {
        if qid == 0 {
            CtrlModel { admin: Some(q), ..self }
        } else {
            CtrlModel { io: self.io.update(self.place(qid), q), ..self }
        }
    }

    /// The I/O queue whose turn it is: the queues take turns in ascending
    /// order of their identifiers.
    pub open spec fn turn(self) -> u16 {
        self.io[self.rr_cnt as int % self.io.len() as int].qid
    }

    /// The controller after a command was submitted on queue `qid`.
    pub open spec fn posted(self, qid: u16) -> CtrlModel {
        self.with_queue(qid, self.queue(qid).submitted())
    }

    /// The controller after an I/O command was submitted: on the queue whose
    /// turn it was, and the turn has moved on.
    pub open spec fn io_posted(self) -> CtrlModel {
        CtrlModel { rr_cnt: ((self.rr_cnt + 1) % 0x1_0000) as u16, ..self.posted(self.turn()) }
    }

    /// The stores that submit `cmd` on queue `qid`.
    pub open spec fn submission(self, qid: u16, cmd: Cmd) -> Seq<Store> {
        self.queue(qid).submission(cmd, self.dstrd)
    }

    /// The name of the command that is submitted next on queue `qid`.
    pub open spec fn ticket(self, qid: u16) -> Ticket {
        Ticket { qid, cid: self.queue(qid).sq.cid }
    }

    /// What the host reads to learn of the next completion on queue `qid`.
    pub open spec fn watch(self, qid: u16) -> Fetch {
        Fetch::Cqe { addr: self.queue(qid).cq.slot() as usize }
    }

    /// Whether `reply` completes the command `t`.
    pub open spec fn completes(self, t: Ticket, reply: Reply) -> bool {
        &&& self.knows(t.qid)
        &&& reply matches Reply::Cqe(cqe)
        &&& self.queue(t.qid).cq.accepts(cqe, t.cid)
    }

    /// The controller after `reply` was looked at on behalf of command `t`.
    pub open spec fn fed(self, t: Ticket, reply: Reply) -> CtrlModel {
        match reply {
            Reply::Cqe(cqe) => if self.knows(t.qid) {
                self.with_queue(t.qid, self.queue(t.qid).completed(t.cid, cqe))
            } else {
                self
            },
            _ => self,
        }
    }

    /// The stores that follow when `reply` was looked at on behalf of `t`:
    /// the completion doorbell where the reply completes the command.
    pub open spec fn fed_stores(self, t: Ticket, reply: Reply) -> Seq<Store> {
        if self.completes(t, reply) {
            seq![self.queue(t.qid).acknowledgement(self.dstrd)]
        } else {
            Seq::empty()
        }
    }

    /// What looking at `reply` on behalf of `t` yields: the command's
    /// outcome where the reply completes it; a fault where the host handed
    /// over something other than a completion entry; no such queue where
    /// there is none; and otherwise nothing yet.
    pub open spec fn fed_outcome(self, t: Ticket, reply: Reply) -> Option<Result<Cqe>> {
        match reply {
            Reply::Cqe(cqe) => if !self.knows(t.qid) {
                Some(Err(NVMeError::InvQp))
            } else if self.queue(t.qid).cq.accepts(cqe, t.cid) {
                Some(cqe.outcome())
            } else {
                None
            },
            _ => Some(Err(NVMeError::IoError)),
        }
    }
}

impl CtrlModel {
    /// Whether no I/O queue has a command in flight.
    pub open spec fn io_idle(self) -> bool {
        forall|i: int| 0 <= i < self.io.len() ==> (#[trigger] self.io[i]).sq.pending == 0
    }

    /// Whether the admin queue has no command in flight.
    pub open spec fn admin_idle(self) -> bool {
        self.admin matches Some(q) ==> q.sq.pending == 0
    }

    /// Whether `qid` is the lowest identifier from 1 to `mqe` that no I/O
    /// queue carries.
    pub open spec fn is_lowest_unused(self, qid: u16) -> bool {
        &&& 1 <= qid <= self.mqe
        &&& !self.knows(qid)
        &&& forall|other: u16| 1 <= other < qid ==> self.knows(other)
    }

    /// Whether every identifier from 1 to `mqe` is carried by an I/O queue.
    pub open spec fn is_full(self) -> bool {
        forall|other: u16| 1 <= other <= self.mqe ==> self.knows(other)
    }

    /// Whether `p` is where a queue `qid` belongs among the first `n` I/O
    /// queues: behind those of lower identifier and before the others.
    pub open spec fn is_rank_among(self, qid: u16, p: int, n: int) -> bool {
        &&& 0 <= p <= n
        &&& forall|i: int| 0 <= i < p ==> (#[trigger] self.io[i]).qid < qid
        &&& forall|i: int| p <= i < n ==> (#[trigger] self.io[i]).qid >= qid
    }

    /// Whether `p` is where a queue `qid` belongs among the I/O queues.
    pub open spec fn is_rank(self, qid: u16, p: int) -> bool {
        self.is_rank_among(qid, p, self.io.len() as int)
    }

    /// Where a queue `qid` belongs among the I/O queues.
    pub open spec fn rank(self, qid: u16) -> int {
        choose|p: int| #[trigger] self.is_rank(qid, p)
    }

    /// The controller with the I/O queue `q` added in its place.
    pub open spec fn adopted(self, q: QueueModel) -> CtrlModel {
        CtrlModel { io: self.io.insert(self.rank(q.qid), q), ..self }
    }

    /// The controller without the I/O queue `qid`.
    pub open spec fn evicted(self, qid: u16) -> CtrlModel {
        CtrlModel { io: self.io.remove(self.place(qid)), ..self }
    }

    /// The identifiers of the I/O queues, in ascending order.
    pub open spec fn qids(self) -> Seq<u16> {
        self.io.map_values(|q: QueueModel| q.qid)
    }
}

/// An I/O command in flight, with the memory that is given back to the
/// provider once the command has completed: address and size.
#[derive(Clone, Copy, Debug, PartialEq, Eq)]
pub struct IoCall {
    pub ticket: Ticket,
    pub scratch: Option<(usize, usize)>,
}

/// The stores that hand scratch memory back to the provider.
pub open spec fn frees(scratch: Option<(usize, usize)>) -> Seq<Store> {
    match scratch {
        Some((addr, len)) => seq![Store::Free { addr, len }],
        None => Seq::empty(),
    }
}

/// The queue counts that a Set Features (Number of Queues) completion
/// grants: submission queues from bits 15..0 of dword 0, completion queues
/// from bits 31..16, each one more than the field says, modulo 2^16.
pub open spec fn granted(dw0: u32) -> (u16, u16) {
    (
        (((dw0 & 0xFFFF) + 1) % 0x1_0000) as u16,
        ((field32(dw0, 16, 0xFFFF) + 1) % 0x1_0000) as u16,
    )
}

/// The number of dwords less one that a log page of `len` bytes is asked
/// for with, as far as 16 bits hold it.
pub open spec fn log_dwords(len: usize) -> u16 {
    ((len / 4 - 1) % 0x1_0000) as u16
}

impl CtrlModel {
    /// How an admin command begins: without an admin queue it ends at once;
    /// otherwise it is submitted, and the host watches the admin completion
    /// ring.
    pub open spec fn admin_begun<T>(self, cmd: Cmd, s: Step<Ticket, T>, after: CtrlModel) -> bool {
        if self.admin is None {
            &&& after == self
            &&& s.stores@ == Seq::<Store>::empty()
            &&& s.next == Next::<Ticket, T>::Done(Err(NVMeError::InvQp))
        } else {
            &&& after == self.posted(0)
            &&& s.stores@ == self.submission(0, cmd)
            &&& s.next == Next::<Ticket, T>::Fetch(self.watch(0), self.ticket(0))
        }
    }

    /// How a command goes on when the host hands over `reply`: while the
    /// reply does not complete it, the host reads again; once it does, the
    /// completion doorbell is told, the memory `scratch` goes back to the
    /// provider, and the operation ends with `value` of the completion
    /// entry, or with the failure.
    pub open spec fn went_on<S, T>(
        self,
        t: Ticket,
        state: S,
        scratch: Option<(usize, usize)>,
        reply: Reply,
        value: spec_fn(Cqe) -> T,
        s: Step<S, T>,
        after: CtrlModel,
    ) -> bool {
        &&& after == self.fed(t, reply)
        &&& s.stores@ == self.fed_stores(t, reply) + (if self.fed_outcome(t, reply) is Some {
            frees(scratch)
        } else {
            Seq::empty()
        })
        &&& s.next == match self.fed_outcome(t, reply) {
            None => Next::<S, T>::Fetch(self.watch(t.qid), state),
            Some(Ok(cqe)) => Next::<S, T>::Done(Ok(value(cqe))),
            Some(Err(e)) => Next::<S, T>::Done(Err(e)),
        }
    }

    /// How an I/O command begins after the stores `pre`: without I/O queues
    /// it ends at once, nothing is stored and the memory `scratch` goes
    /// back to the provider; otherwise it is submitted on the queue whose
    /// turn it is, and the host watches that queue's completion ring.
    pub open spec fn io_begun(
        self,
        cmd: Cmd,
        pre: Seq<Store>,
        scratch: Option<(usize, usize)>,
        s: Step<IoCall, ()>,
        after: CtrlModel,
    ) -> bool {
        if self.io.len() == 0 {
            &&& after == self
            &&& s.stores@ == frees(scratch)
            &&& s.next == Next::<IoCall, ()>::Done(Err(NVMeError::InvQp))
        } else {
            &&& after == self.io_posted()
            &&& s.stores@ == pre + self.submission(self.turn(), cmd)
            &&& s.next == Next::<IoCall, ()>::Fetch(
                self.watch(self.turn()),
                IoCall { ticket: self.ticket(self.turn()), scratch },
            )
        }
    }
}

/// In a well-formed controller an I/O queue stands where its identifier
/// says.
pub proof fn lemma_place(c: CtrlModel, k: int)
    requires
        c.wf(),
        0 <= k < c.io.len(),
    ensures
        c.knows(c.io[k].qid),
        c.place(c.io[k].qid) == k,
        c.queue(c.io[k].qid) == c.io[k],
{
    let qid = c.io[k].qid;
    let p = c.place(qid);
    assert(0 <= p < c.io.len() && c.io[p].qid == qid);
    if p < k {
        assert(c.io[p].qid < c.io[k].qid);
    } else if k < p {
        assert(c.io[k].qid < c.io[p].qid);
    }
}

/// Replacing a queue by one of the same identifier that is well formed
/// keeps the controller well formed.
pub proof fn lemma_with_queue(c: CtrlModel, qid: u16, q: QueueModel)
    requires
        c.wf(),
        c.knows(qid),
        q.wf(),
        q.qid == qid,
    ensures
        c.with_queue(qid, q).wf(),
        c.with_queue(qid, q).knows(qid),
        c.with_queue(qid, q).queue(qid) == q,
        forall|other: u16| c.with_queue(qid, q).knows(other) == c.knows(other),
{
    let d = c.with_queue(qid, q);
    if qid != 0 {
        let p = c.place(qid);
        assert(0 <= p < c.io.len() && c.io[p].qid == qid);
        assert(d.io[p] == q);
        assert forall|i: int| 0 <= i < d.io.len() implies (#[trigger] d.io[i]).wf() && d.io[i].qid
            >= 1 && d.io[i].qid == c.io[i].qid by {
            if i != p {
                assert(d.io[i] == c.io[i]);
            }
        }
        assert forall|i: int, j: int| 0 <= i < j < d.io.len() implies (#[trigger] d.io[i]).qid < (
        #[trigger] d.io[j]).qid by {
            assert(c.io[i].qid < c.io[j].qid);
        }
        lemma_place(d, p);
        assert forall|other: u16| d.knows(other) == c.knows(other) by {
            if other != 0 {
                if c.knows(other) {
                    let i = c.place(other);
                    assert(d.io[i].qid == other);
                }
                if d.knows(other) {
                    let i = d.place(other);
                    assert(c.io[i].qid == other);
                }
            }
        }
    } else {
        assert forall|other: u16| d.knows(other) == c.knows(other) by {
            if other != 0 {
                assert(d.io == c.io);
            }
        }
    }
}

/// While a reply does not complete a command, looking at it changes
/// nothing, and the command's queue is there to be watched.
pub proof fn lemma_fed_nothing(c: CtrlModel, t: Ticket, reply: Reply)
    requires
        c.wf(),
        c.fed_outcome(t, reply) is None,
    ensures
        c.fed(t, reply) == c,
        c.knows(t.qid),
        c.fed_stores(t, reply) == Seq::<Store>::empty(),
{
    let cqe = reply->Cqe_0;
    assert(c.queue(t.qid).completed(t.cid, cqe) == c.queue(t.qid));
    if t.qid != 0 {
        let p = c.place(t.qid);
        assert(c.io.update(p, c.io[p]) =~= c.io);
    }
}

/// A reply that completes a command, with success or with a failure of the
/// device, came in on a queue that is there, and looking at it leaves the
/// controller well formed with the same queues.
pub proof fn lemma_fed_known(c: CtrlModel, t: Ticket, reply: Reply)
    requires
        c.wf(),
    ensures
        c.fed(t, reply).wf(),
        forall|qid: u16| c.fed(t, reply).knows(qid) == c.knows(qid),
        c.fed_outcome(t, reply) matches Some(Ok(_)) ==> c.knows(t.qid),
        c.fed(t, reply).dstrd == c.dstrd,
        c.fed(t, reply).mqe == c.mqe,
{
    match reply {
        Reply::Cqe(cqe) => {
            if c.knows(t.qid) {
                crate::queue::lemma_completed(c.queue(t.qid), t.cid, cqe);
                if t.qid != 0 {
                    let p = c.place(t.qid);
                    assert(0 <= p < c.io.len() && c.io[p].qid == t.qid);
                }
                lemma_with_queue(c, t.qid, c.queue(t.qid).completed(t.cid, cqe));
            }
        },
        _ => {},
    }
}

/// Among queues in ascending order a queue belongs in one place only.
pub proof fn lemma_rank(c: CtrlModel, qid: u16, p: int)
    requires
        c.is_rank(qid, p),
    ensures
        c.rank(qid) == p,
{
    let r = c.rank(qid);
    assert(c.is_rank(qid, r));
    if r < p {
        assert(c.io[r].qid < qid);
        assert(c.io[r].qid >= qid);
    } else if p < r {
        assert(c.io[p].qid < qid);
        assert(c.io[p].qid >= qid);
    }
}

/// Adding a well-formed queue under an identifier that is free keeps the
/// controller well formed, and the queue is then known under it; every
/// other queue is as it was.
pub proof fn lemma_adopted(c: CtrlModel, q: QueueModel)
    requires
        c.wf(),
        q.wf(),
        q.qid >= 1,
        !c.knows(q.qid),
    ensures
        c.is_rank(q.qid, c.rank(q.qid)),
        c.adopted(q).wf(),
        c.adopted(q).knows(q.qid),
        c.adopted(q).queue(q.qid) == q,
        forall|other: u16| other != q.qid ==> c.adopted(q).knows(other) == c.knows(other),
{
    let qid = q.qid;
    // a place exists: count the queues below
    lemma_rank_exists(c, qid, c.io.len() as int);
    let some = choose|p: int| #[trigger] c.is_rank_among(qid, p, c.io.len() as int);
    assert(c.is_rank(qid, some));
    lemma_rank(c, qid, some);
    let p = c.rank(qid);
    let d = c.adopted(q);
    assert(d.io == c.io.insert(p, q));
    assert forall|i: int| 0 <= i < d.io.len() implies (#[trigger] d.io[i]).wf() && d.io[i].qid
        >= 1 by {
        if i < p {
            assert(d.io[i] == c.io[i]);
        } else if i > p {
            assert(d.io[i] == c.io[i - 1]);
        }
    }
    assert forall|i: int, j: int| 0 <= i < j < d.io.len() implies (#[trigger] d.io[i]).qid < (
    #[trigger] d.io[j]).qid by {
        let a = if i < p { i } else { i - 1 };
        let b = if j < p { j } else { j - 1 };
        if i != p && j != p {
            assert(d.io[i] == c.io[a]);
            assert(d.io[j] == c.io[b]);
            assert(c.io[a].qid < c.io[b].qid);
        } else if i == p {
            assert(d.io[j] == c.io[b]);
            assert(c.io[b].qid >= qid);
            assert(c.io[b].qid != qid) by {
                if c.io[b].qid == qid {
                    assert(c.knows(qid));
                }
            }
        } else {
            assert(d.io[i] == c.io[a]);
            assert(c.io[a].qid < qid);
        }
    }
    assert(d.io[p] == q);
    lemma_place(d, p);
    assert forall|other: u16| other != qid implies d.knows(other) == c.knows(other) by {
        if other != 0 {
            if c.knows(other) {
                let i = c.place(other);
                let k = if i < p { i } else { i + 1 };
                assert(d.io[k] == c.io[i]);
            }
            if d.knows(other) {
                let k = d.place(other);
                let i = if k < p { k } else { k - 1 };
                assert(d.io[k] == c.io[i]);
            }
        }
    }
}

/// Among the first `n` queues in ascending order there is a place for any
/// identifier.
proof fn lemma_rank_exists(c: CtrlModel, qid: u16, n: int)
    requires
        c.wf(),
        0 <= n <= c.io.len(),
    ensures
        exists|p: int| #[trigger] c.is_rank_among(qid, p, n),
    decreases n,
{
    if n == 0 {
        assert(c.is_rank_among(qid, 0, n));
    } else {
        lemma_rank_exists(c, qid, n - 1);
        let before = choose|p: int| #[trigger] c.is_rank_among(qid, p, n - 1);
        if c.io[n - 1].qid < qid {
            assert forall|i: int| 0 <= i < n implies (#[trigger] c.io[i]).qid < qid by {
                if i < n - 1 {
                    assert(c.io[i].qid < c.io[n - 1].qid);
                }
            }
            assert(c.is_rank_among(qid, n, n));
        } else {
            assert(c.is_rank_among(qid, before, n));
        }
    }
}

/// Taking an I/O queue away keeps the controller well formed; the queue is
/// then unknown, and every other queue is as it was.
pub proof fn lemma_evicted(c: CtrlModel, qid: u16)
    requires
        c.wf(),
        qid != 0,
        c.knows(qid),
    ensures
        c.evicted(qid).wf(),
        !c.evicted(qid).knows(qid),
        forall|other: u16| other != qid ==> c.evicted(qid).knows(other) == c.knows(other),
{
    let p = c.place(qid);
    assert(0 <= p < c.io.len() && c.io[p].qid == qid);
    let d = c.evicted(qid);
    assert forall|i: int| 0 <= i < d.io.len() implies (#[trigger] d.io[i]).wf() && d.io[i].qid
        >= 1 by {
        if i < p {
            assert(d.io[i] == c.io[i]);
        } else {
            assert(d.io[i] == c.io[i + 1]);
        }
    }
    assert forall|i: int, j: int| 0 <= i < j < d.io.len() implies (#[trigger] d.io[i]).qid < (
    #[trigger] d.io[j]).qid by {
        let a = if i < p { i } else { i + 1 };
        let b = if j < p { j } else { j + 1 };
        assert(d.io[i] == c.io[a]);
        assert(d.io[j] == c.io[b]);
        assert(c.io[a].qid < c.io[b].qid);
    }
    assert forall|i: int| 0 <= i < d.io.len() implies (#[trigger] d.io[i]).qid != qid by {
        let a = if i < p { i } else { i + 1 };
        assert(d.io[i] == c.io[a]);
        if a < p {
            assert(c.io[a].qid < c.io[p].qid);
        } else {
            assert(c.io[p].qid < c.io[a].qid);
        }
    }
    assert forall|other: u16| other != qid implies d.knows(other) == c.knows(other) by {
        if other != 0 {
            if c.knows(other) {
                let i = c.place(other);
                let k = if i < p { i } else { i - 1 };
                assert(d.io[k] == c.io[i]);
            }
            if d.knows(other) {
                let k = d.place(other);
                let i = if k < p { k } else { k + 1 };
                assert(d.io[k] == c.io[i]);
            }
        }
    }
}

/// The controller: register window, queues, and what bring-up learnt.
pub struct Ctrl<A: Dma> {
    mmio: usize,
    dstrd: u8,
    admin: Option<Queue<A>>,
    io: Vec<Queue<A>>,
    data: CtrlData,
    dma: A,
    active: bool,
    rr_cnt: u16,
}

impl<A: Dma> View for Ctrl<A> {
    type V = CtrlModel;

    closed spec fn view(&self) -> CtrlModel {
        CtrlModel {
            mmio: self.mmio,
            dstrd: self.dstrd,
            admin: match self.admin {
                Some(q) => Some(q@),
                None => None,
            },
            io: self.io@.map_values(|q: Queue<A>| q@),
            serial: self.data.serial@,
            model: self.data.model@,
            firm: self.data.firm@,
            mts: self.data.mts,
            mqe: self.data.mqe,
            min_pg: self.data.min_pg,
            active: self.active,
            rr_cnt: self.rr_cnt,
        }
    }
}

impl<A: Dma> Ctrl<A> {
    /// The DMA provider.
    pub closed spec fn provider(&self) -> A {
        self.dma
    }

    /// A controller behind the register window at `mmio`, before bring-up:
    /// no queues, nothing known of the device.
    pub fn new(mmio: usize, alloc: A) -> (c: Self)
        ensures
            c@ == CtrlModel::fresh(mmio),
            c@.wf(),
            c.provider() == alloc,
    {
        let c = Self {
            mmio,
            dstrd: 0,
            admin: None,
            io: Vec::new(),
            data: CtrlData {
                serial: String::new(),
                model: String::new(),
                firm: String::new(),
                mts: 0,
                mqe: 0,
                min_pg: 0,
            },
            dma: alloc,
            active: true,
            rr_cnt: 0,
        };
        proof {
            crate::reg::lemma_stride(0);
            assert(c@.io =~= Seq::empty());
        }
        c
    }

    /// The address of the register window.
    pub fn mmio(&self) -> (r: usize)
        ensures
            r == self@.mmio,
    {
        return self.mmio;
    }

    /// The doorbell stride exponent.
    pub fn dstrd(&self) -> (r: u8)
        ensures
            r == self@.dstrd,
    {
        return self.dstrd;
    }

    /// Whether the controller is in service: true from construction and
    /// after a resume, false once a shutdown has begun.
    pub fn is_active(&self) -> (r: bool)
        ensures
            r == self@.active,
    {
        return self.active;
    }

    /// The number of I/O queues.
    pub fn ioq_cnt(&self) -> (r: usize)
        ensures
            r == self@.io.len(),
    {
        return self.io.len();
    }

    /// The DMA provider.
    pub fn dma(&self) -> (r: &A)
        ensures
            *r == self.provider(),
    {
        return &self.dma;
    }

    /// What bring-up learnt of the controller.
    pub fn data(&self) -> (r: &CtrlData)
        ensures
            r.serial@ == self@.serial,
            r.model@ == self@.model,
            r.firm@ == self@.firm,
            r.mts == self@.mts,
            r.mqe == self@.mqe,
            r.min_pg == self@.min_pg,
    {
        return &self.data;
    }

    /// Where I/O queue `qid` stands among the I/O queues, if there is one.
    pub fn find(&self, qid: u16) -> (r: Option<usize>)
        requires
            self@.wf(),
        ensures
            qid == 0 ==> r is None,
            qid != 0 ==> (r is Some <==> self@.knows(qid)),
            r matches Some(i) ==> i == self@.place(qid) && i < self@.io.len() && self@.io[i as int]
                .qid == qid,
    {
        let mut i: usize = 0;
        while i < self.io.len()
            invariant
                i <= self.io@.len(),
                self@.wf(),
                forall|k: int| 0 <= k < i ==> (#[trigger] self@.io[k]).qid != qid,
            decreases self.io@.len() - i,
        {
            if self.io[i].qid() == qid {
                proof {
                    assert(self@.io[i as int] == self.io@[i as int]@);
                    lemma_place(self@, i as int);
                }
                if qid == 0 {
                    return None;
                }
                return Some(i);
            }
            proof {
                assert(self@.io[i as int] == self.io@[i as int]@);
            }
            i += 1;
        }
        None
    }

    /// Submits `cmd` on the admin queue and appends the stores of the
    /// submission to `stores`. Without an admin queue nothing happens.
    pub(crate) fn post_admin(&mut self, cmd: &Cmd, stores: &mut Vec<Store>) -> (r: Result<Ticket>)
        requires
            old(self)@.wf(),
        ensures
            final(self)@.wf(),
            final(self).provider() == old(self).provider(),
            old(self)@.admin is None ==> r == Err::<Ticket, NVMeError>(NVMeError::InvQp)
                && final(self)@ == old(self)@ && final(stores)@ == old(stores)@,
            old(self)@.admin is Some ==> r == Ok::<Ticket, NVMeError>(old(self)@.ticket(0))
                && final(self)@ == old(self)@.posted(0) && final(stores)@ == old(stores)@ + old(
                self)@.submission(0, *cmd),
    {
        proof {
            lemma_doorbells_fit(0, self.dstrd);
        }
        let dstrd = self.dstrd;
        match &mut self.admin {
            Some(q) => {
                let cid = q.submit(cmd, dstrd, stores);
                Ok(Ticket { qid: 0, cid })
            },
            None => Err(NVMeError::InvQp),
        }
    }

    /// Submits `cmd` on the I/O queue whose turn it is and appends the
    /// stores of the submission to `stores`. Without I/O queues nothing
    /// happens, and no turn is used up.
    pub(crate) fn post_io(&mut self, cmd: &Cmd, stores: &mut Vec<Store>) -> (r: Result<Ticket>)
        requires
            old(self)@.wf(),
        ensures
            final(self)@.wf(),
            final(self).provider() == old(self).provider(),
            old(self)@.io.len() == 0 ==> r == Err::<Ticket, NVMeError>(NVMeError::InvQp)
                && final(self)@ == old(self)@ && final(stores)@ == old(stores)@,
            old(self)@.io.len() != 0 ==> r == Ok::<Ticket, NVMeError>(
                old(self)@.ticket(old(self)@.turn()),
            ) && final(self)@ == old(self)@.io_posted() && final(stores)@ == old(stores)@ + old(
                self)@.submission(old(self)@.turn(), *cmd),
    {
        if self.io.len() == 0 {
            return Err(NVMeError::InvQp);
        }
        let cnt = self.rr_cnt as usize;
        let idx = cnt % self.io.len();
        let dstrd = self.dstrd;
        let qid = self.io[idx].qid();
        proof {
            assert(self@.io[idx as int] == self.io@[idx as int]@);
            lemma_place(self@, idx as int);
            lemma_doorbells_fit(qid, dstrd);
            crate::queue::lemma_doorbell_steps(self@.io[idx as int]);
            lemma_with_queue(self@, qid, self@.io[idx as int].submitted());
        }
        self.rr_cnt = self.rr_cnt.wrapping_add(1);
        let cid = self.io[idx].submit(cmd, dstrd, stores);
        proof {
            assert(self@.io =~= old(self)@.io.update(
                idx as int,
                old(self)@.io[idx as int].submitted(),
            ));
        }
        Ok(Ticket { qid, cid })
    }

    /// What the host reads to learn of the next completion on queue `qid`.
    pub fn watch(&self, qid: u16) -> (r: Fetch)
        requires
            self@.wf(),
            self@.knows(qid),
        ensures
            r == self@.watch(qid),
    {
        if qid == 0 {
            match &self.admin {
                Some(q) => Fetch::Cqe { addr: q.cq().slot() },
                None => Fetch::Pause,
            }
        } else {
            match self.find(qid) {
                Some(i) => {
                    proof {
                        assert(self@.io[i as int] == self.io@[i as int]@);
                    }
                    Fetch::Cqe { addr: self.io[i].cq().slot() }
                },
                None => Fetch::Pause,
            }
        }
    }

    /// Looks at `reply` on behalf of the command `t`. Where the reply is the
    /// command's completion, the queue moves on, the store that tells the
    /// completion doorbell is appended to `stores`, and the outcome is
    /// returned. Anything other than a completion entry is a fault of the
    /// host; a command on a queue that is not there has no queue.
    pub(crate) fn feed(&mut self, t: Ticket, reply: &Reply, stores: &mut Vec<Store>) -> (r: Option<
        Result<Cqe>,
    >)
        requires
            old(self)@.wf(),
        ensures
            final(self)@.wf(),
            final(self).provider() == old(self).provider(),
            final(self)@ == old(self)@.fed(t, *reply),
            final(stores)@ == old(stores)@ + old(self)@.fed_stores(t, *reply),
            r == old(self)@.fed_outcome(t, *reply),
    {
        let cqe = match reply {
            Reply::Cqe(c) => *c,
            _ => {
                assert(stores@ =~= old(stores)@ + old(self)@.fed_stores(t, *reply));
                return Some(Err(NVMeError::IoError));
            },
        };
        let dstrd = self.dstrd;
        proof {
            lemma_doorbells_fit(t.qid, dstrd);
        }
        if t.qid == 0 {
            match &mut self.admin {
                None => {
                    assert(stores@ =~= old(stores)@ + old(self)@.fed_stores(t, *reply));
                    Some(Err(NVMeError::InvQp))
                },
                Some(q) => {
                    proof {
                        crate::queue::lemma_completed(q@, t.cid, cqe);
                    }
                    let r = q.complete(t.cid, &cqe, dstrd, stores);
                    assert(stores@ =~= old(stores)@ + old(self)@.fed_stores(t, *reply));
                    r
                },
            }
        } else {
            match self.find(t.qid) {
                None => {
                    assert(stores@ =~= old(stores)@ + old(self)@.fed_stores(t, *reply));
                    Some(Err(NVMeError::InvQp))
                },
                Some(i) => {
                    proof {
                        assert(self@.io[i as int] == self.io@[i as int]@);
                        crate::queue::lemma_completed(self@.io[i as int], t.cid, cqe);
                        lemma_with_queue(
                            self@,
                            t.qid,
                            self@.io[i as int].completed(t.cid, cqe),
                        );
                    }
                    let r = self.io[i].complete(t.cid, &cqe, dstrd, stores);
                    proof {
                        assert(self@.io =~= old(self)@.io.update(
                            i as int,
                            old(self)@.io[i as int].completed(t.cid, cqe),
                        ));
                        assert(stores@ =~= old(stores)@ + old(self)@.fed_stores(t, *reply));
                    }
                    r
                },
            }
        }
    }

    /// Begins an admin command whose result is of type `T`.
    fn begin<T>(&mut self, cmd: &Cmd) -> (s: Step<Ticket, T>)
        requires
            old(self)@.wf(),
        ensures
            final(self)@.wf(),
            final(self).provider() == old(self).provider(),
            old(self)@.admin_begun(*cmd, s, final(self)@),
    {
        let mut stores: Vec<Store> = Vec::new();
        match self.post_admin(cmd, &mut stores) {
            Ok(t) => {
                proof {
                    lemma_with_queue(old(self)@, 0, old(self)@.queue(0).submitted());
                    crate::queue::lemma_doorbell_steps(old(self)@.queue(0));
                }
                let f = self.watch(0);
                assert(stores@ =~= old(self)@.submission(0, *cmd));
                Step::wait(stores, f, t)
            },
            Err(e) => Step::done(stores, Err(e)),
        }
    }

    /// Looks at `reply` on behalf of command `t`; see `CtrlModel::went_on`.
    /// The outcome is left for the caller to turn into a step's end.
    fn carry_on(&mut self, t: Ticket, reply: &Reply) -> (r: (
        Vec<Store>,
        Option<Result<Cqe>>,
        Fetch,
    ))
        requires
            old(self)@.wf(),
        ensures
            final(self)@.wf(),
            final(self).provider() == old(self).provider(),
            final(self)@ == old(self)@.fed(t, *reply),
            r.0@ == old(self)@.fed_stores(t, *reply),
            r.1 == old(self)@.fed_outcome(t, *reply),
            r.1 is None ==> r.2 == old(self)@.watch(t.qid),
    {
        let mut stores: Vec<Store> = Vec::new();
        let out = self.feed(t, reply, &mut stores);
        assert(stores@ =~= old(self)@.fed_stores(t, *reply));
        let f = match out {
            None => {
                proof {
                    let ghost cqe = reply->Cqe_0;
                    assert(old(self)@.knows(t.qid));
                    assert(old(self)@.queue(t.qid).completed(t.cid, cqe) == old(self)@.queue(
                        t.qid,
                    ));
                    lemma_with_queue(old(self)@, t.qid, old(self)@.queue(t.qid));
                    if t.qid != 0 {
                        assert(self@.io =~= old(self)@.io);
                    }
                }
                self.watch(t.qid)
            },
            Some(_) => Fetch::Pause,
        };
        (stores, out, f)
    }

    /// Begins the admin command `cmd`. Without an admin queue the operation
    /// ends at once with `InvQp`.
    pub fn admin_cmd(&mut self, cmd: &Cmd) -> (s: Step<Ticket, ()>)
        requires
            old(self)@.wf(),
        ensures
            final(self)@.wf(),
            final(self).provider() == old(self).provider(),
            old(self)@.admin_begun(*cmd, s, final(self)@),
    {
        return self.begin(cmd);
    }

    /// Goes on with an admin command that yields nothing but success or
    /// failure.
    pub fn admin_next(&mut self, t: Ticket, reply: Reply) -> (s: Step<Ticket, ()>)
        requires
            old(self)@.wf(),
        ensures
            final(self)@.wf(),
            final(self).provider() == old(self).provider(),
            old(self)@.went_on(t, t, None, reply, |c: Cqe| (), s, final(self)@),
    {
        let (stores, out, f) = self.carry_on(t, &reply);
        assert(stores@ + Seq::<Store>::empty() =~= stores@);
        match out {
            None => Step::wait(stores, f, t),
            Some(Ok(_)) => Step::done(stores, Ok(())),
            Some(Err(e)) => Step::done(stores, Err(e)),
        }
    }

    /// Begins Set Features for feature `fid` with `value`; goes on with
    /// `admin_next`.
    pub fn set_feat(&mut self, fid: u8, value: u32) -> (s: Step<Ticket, ()>)
        requires
            old(self)@.wf(),
        ensures
            final(self)@.wf(),
            final(self).provider() == old(self).provider(),
            old(self)@.admin_begun(
                (Cmd {
                    opc: 0x09,
                    nsid: 0,
                    prp1: 0,
                    prp2: 0,
                    cdw10: fid as u32,
                    cdw11: value,
                    cdw12: 0,
                }),
                s,
                final(self)@,
            ),
    {
        let cmd = Cmd::set_feat(fid, value);
        return self.begin(&cmd);
    }

    /// Begins Get Features for feature `fid`; goes on with `get_feat_next`.
    pub fn get_feat(&mut self, fid: u8) -> (s: Step<Ticket, u32>)
        requires
            old(self)@.wf(),
        ensures
            final(self)@.wf(),
            final(self).provider() == old(self).provider(),
            old(self)@.admin_begun(
                (Cmd {
                    opc: 0x0A,
                    nsid: 0,
                    prp1: 0,
                    prp2: 0,
                    cdw10: fid as u32,
                    cdw11: 0,
                    cdw12: 0,
                }),
                s,
                final(self)@,
            ),
    {
        let cmd = Cmd::get_feat(fid);
        return self.begin(&cmd);
    }

    /// Goes on with Get Features: the value is dword 0 of the completion.
    pub fn get_feat_next(&mut self, t: Ticket, reply: Reply) -> (s: Step<Ticket, u32>)
        requires
            old(self)@.wf(),
        ensures
            final(self)@.wf(),
            final(self).provider() == old(self).provider(),
            old(self)@.went_on(t, t, None, reply, |c: Cqe| c.dw0, s, final(self)@),
    {
        let (stores, out, f) = self.carry_on(t, &reply);
        assert(stores@ + Seq::<Store>::empty() =~= stores@);
        match out {
            None => Step::wait(stores, f, t),
            Some(Ok(cqe)) => Step::done(stores, Ok(cqe.dw0)),
            Some(Err(e)) => Step::done(stores, Err(e)),
        }
    }

    /// Begins Set Features (Number of Queues) asking for `nsq` submission
    /// and `ncq` completion queues; goes on with `set_qs_n_next`.
    pub fn set_qs_n(&mut self, nsq: u16, ncq: u16) -> (s: Step<Ticket, (u16, u16)>)
        requires
            old(self)@.wf(),
            nsq >= 1,
            ncq >= 1,
        ensures
            final(self)@.wf(),
            final(self).provider() == old(self).provider(),
            old(self)@.admin_begun(
                (Cmd {
                    opc: 0x09,
                    nsid: 0,
                    prp1: 0,
                    prp2: 0,
                    cdw10: FT_NQ as u32,
                    cdw11: pair16((ncq - 1) as u16, (nsq - 1) as u16),
                    cdw12: 0,
                }),
                s,
                final(self)@,
            ),
    {
        let value = crate::bits::join16(ncq - 1, nsq - 1);
        let cmd = Cmd::set_feat(FT_NQ, value);
        return self.begin(&cmd);
    }

    /// Goes on with Set Features (Number of Queues): the counts granted,
    /// submission queues first.
    pub fn set_qs_n_next(&mut self, t: Ticket, reply: Reply) -> (s: Step<Ticket, (u16, u16)>)
        requires
            old(self)@.wf(),
        ensures
            final(self)@.wf(),
            final(self).provider() == old(self).provider(),
            old(self)@.went_on(t, t, None, reply, |c: Cqe| granted(c.dw0), s, final(self)@),
    {
        let (stores, out, f) = self.carry_on(t, &reply);
        assert(stores@ + Seq::<Store>::empty() =~= stores@);
        match out {
            None => Step::wait(stores, f, t),
            Some(Ok(cqe)) => Step::done(stores, Ok(counts_granted(cqe.dw0))),
            Some(Err(e)) => Step::done(stores, Err(e)),
        }
    }

    /// Begins Set Features (Asynchronous Event Configuration) asking for
    /// SMART warnings, namespace attribute notices and firmware activation
    /// notices; goes on with `admin_next`.
    pub fn en_async_ev(&mut self) -> (s: Step<Ticket, ()>)
        requires
            old(self)@.wf(),
        ensures
            final(self)@.wf(),
            final(self).provider() == old(self).provider(),
            old(self)@.admin_begun(
                (Cmd {
                    opc: 0x09,
                    nsid: 0,
                    prp1: 0,
                    prp2: 0,
                    cdw10: FT_ASYNC as u32,
                    cdw11: 0x301,
                    cdw12: 0,
                }),
                s,
                final(self)@,
            ),
    {
        let mut aec = AsyncEventConfig::new();
        aec.en_smart_hlt().en_ns_attr().en_fw_actv();
        assert(((0u32 | 0x1) | 0x100) | 0x200 == 0x301) by (bit_vector);
        return self.set_feat(FT_ASYNC, aec.value);
    }

    /// Begins Sanitize with block erase; goes on with `admin_next`.
    pub fn block_erase(&mut self) -> (s: Step<Ticket, ()>)
        requires
            old(self)@.wf(),
        ensures
            final(self)@.wf(),
            final(self).provider() == old(self).provider(),
            old(self)@.admin_begun(
                (Cmd {
                    opc: 0x84,
                    nsid: 0,
                    prp1: 0,
                    prp2: 0,
                    cdw10: crate::cmd::sanitize_dword(0x02, false, 0, false, false),
                    cdw11: 0,
                    cdw12: 0,
                }),
                s,
                final(self)@,
            ),
    {
        let cmd = Cmd::sanitise(0x02, false, 0, false, false);
        return self.begin(&cmd);
    }

    /// Begins Sanitize with overwrite in `passes` passes, the pattern
    /// inverted between passes where `invert` is set; goes on with
    /// `admin_next`.
    pub fn overwrite(&mut self, passes: u8, invert: bool) -> (s: Step<Ticket, ()>)
        requires
            old(self)@.wf(),
        ensures
            final(self)@.wf(),
            final(self).provider() == old(self).provider(),
            old(self)@.admin_begun(
                (Cmd {
                    opc: 0x84,
                    nsid: 0,
                    prp1: 0,
                    prp2: 0,
                    cdw10: crate::cmd::sanitize_dword(0x03, false, passes, invert, false),
                    cdw11: 0,
                    cdw12: 0,
                }),
                s,
                final(self)@,
            ),
    {
        let cmd = Cmd::sanitise(0x03, false, passes, invert, false);
        return self.begin(&cmd);
    }

    /// Begins Sanitize with crypto erase; goes on with `admin_next`.
    pub fn crypto_erase(&mut self) -> (s: Step<Ticket, ()>)
        requires
            old(self)@.wf(),
        ensures
            final(self)@.wf(),
            final(self).provider() == old(self).provider(),
            old(self)@.admin_begun(
                (Cmd {
                    opc: 0x84,
                    nsid: 0,
                    prp1: 0,
                    prp2: 0,
                    cdw10: crate::cmd::sanitize_dword(0x04, false, 0, false, false),
                    cdw11: 0,
                    cdw12: 0,
                }),
                s,
                final(self)@,
            ),
    {
        let cmd = Cmd::sanitise(0x04, false, 0, false, false);
        return self.begin(&cmd);
    }

    /// Begins Get Log Page for page `lid` into the `len` bytes at `buf`;
    /// goes on with `admin_next`. A length that is 0 or no multiple of 4 is
    /// refused with `InvBuf`, and nothing is submitted.
    pub fn log_page(&mut self, lid: u8, buf: usize, len: usize) -> (s: Step<Ticket, ()>)
        requires
            old(self)@.wf(),
        ensures
            final(self)@.wf(),
            final(self).provider() == old(self).provider(),
            len < 4 || len % 4 != 0 ==> final(self)@ == old(self)@ && s.stores@ == Seq::<
                Store,
            >::empty() && s.next == Next::<Ticket, ()>::Done(Err(NVMeError::InvBuf)),
            len >= 4 && len % 4 == 0 ==> old(self)@.admin_begun(
                (Cmd {
                    opc: 0x02,
                    nsid: 0,
                    prp1: old(self).provider().phys(buf) as u64,
                    prp2: 0,
                    cdw10: pair16(log_dwords(len), lid as u16),
                    cdw11: 0,
                    cdw12: 0,
                }),
                s,
                final(self)@,
            ),
    {
        if len < 4 || len % 4 != 0 {
            return Step::done(Vec::new(), Err(NVMeError::InvBuf));
        }
        let buf_phys = self.dma.virt_to_phys(buf) as u64;
        let numdl = ((len / 4 - 1) % 0x1_0000) as u16;
        let cmd = Cmd::get_log(lid, numdl, buf_phys, 0);
        return self.begin(&cmd);
    }

    /// Begins the I/O command `cmd` on the queue whose turn it is. Without
    /// I/O queues the operation ends at once with `InvQp`.
    pub fn io_cmd(&mut self, cmd: &Cmd) -> (s: Step<IoCall, ()>)
        requires
            old(self)@.wf(),
        ensures
            final(self)@.wf(),
            final(self).provider() == old(self).provider(),
            old(self)@.io_begun(*cmd, Seq::empty(), None, s, final(self)@),
    {
        return self.io_cmd_with(cmd, Vec::new(), None);
    }

    /// Begins the I/O command `cmd`, which relies on the stores `pre` having
    /// been performed and on the memory `scratch`. That memory goes back to
    /// the provider when the command has completed, or at once where the
    /// command cannot be submitted.
    pub fn io_cmd_with(
        &mut self,
        cmd: &Cmd,
        pre: Vec<Store>,
        scratch: Option<(usize, usize)>,
    ) -> (s: Step<IoCall, ()>)
        requires
            old(self)@.wf(),
        ensures
            final(self)@.wf(),
            final(self).provider() == old(self).provider(),
            old(self)@.io_begun(*cmd, pre@, scratch, s, final(self)@),
    {
        let mut stores = pre;
        match self.post_io(cmd, &mut stores) {
            Ok(t) => {
                proof {
                    let c = old(self)@;
                    let k = c.rr_cnt as int % c.io.len() as int;
                    lemma_place(c, k);
                    crate::queue::lemma_doorbell_steps(c.io[k]);
                    lemma_with_queue(c, c.turn(), c.io[k].submitted());
                    let p = c.posted(c.turn());
                    assert(self@.io == p.io);
                    assert(p.knows(t.qid));
                    assert(self@.knows(t.qid) == p.knows(t.qid));
                    assert(self@.queue(t.qid) == p.queue(t.qid));
                }
                let f = self.watch(t.qid);
                Step::wait(stores, f, IoCall { ticket: t, scratch })
            },
            Err(e) => {
                let mut back: Vec<Store> = Vec::new();
                give_back(scratch, &mut back);
                Step::done(back, Err(e))
            },
        }
    }

    /// Goes on with an I/O command. When it has completed, its scratch
    /// memory goes back to the provider.
    pub fn io_next(&mut self, call: IoCall, reply: Reply) -> (s: Step<IoCall, ()>)
        requires
            old(self)@.wf(),
        ensures
            final(self)@.wf(),
            final(self).provider() == old(self).provider(),
            old(self)@.went_on(
                call.ticket,
                call,
                call.scratch,
                reply,
                |c: Cqe| (),
                s,
                final(self)@,
            ),
    {
        let (stores, out, f) = self.carry_on(call.ticket, &reply);
        let mut stores = stores;
        match out {
            None => {
                assert(stores@ + Seq::<Store>::empty() =~= stores@);
                Step::wait(stores, f, call)
            },
            Some(Ok(_)) => {
                give_back(call.scratch, &mut stores);
                Step::done(stores, Ok(()))
            },
            Some(Err(e)) => {
                give_back(call.scratch, &mut stores);
                Step::done(stores, Err(e))
            },
        }
    }

    /// Marks the controller as in or out of service.
    pub(crate) fn set_active(&mut self, on: bool)
        ensures
            final(self)@ == (CtrlModel { active: on, ..old(self)@ }),
            final(self).provider() == old(self).provider(),
    {
        self.active = on;
    }

    /// Takes the doorbell stride exponent that CAP reports.
    pub(crate) fn configure(&mut self, dstrd: u8)
        requires
            old(self)@.wf(),
            doorbells_fit(dstrd),
        ensures
            final(self)@ == (CtrlModel { dstrd, ..old(self)@ }),
            final(self)@.wf(),
            final(self).provider() == old(self).provider(),
    {
        self.dstrd = dstrd;
    }

    /// Takes `q` as the admin queue. The queue that was there before, if
    /// any, is handed back.
    pub(crate) fn install_admin(&mut self, q: Queue<A>) -> (was: Option<Queue<A>>)
        requires
            old(self)@.wf(),
            q@.wf(),
            q@.qid == 0,
        ensures
            final(self)@ == (CtrlModel { admin: Some(q@), ..old(self)@ }),
            final(self)@.wf(),
            final(self).provider() == old(self).provider(),
            was is Some <==> old(self)@.admin is Some,
            was matches Some(w) ==> w@.wf() && old(self)@.admin == Some(w@),
    {
        let was = self.admin.take();
        self.admin = Some(q);
        was
    }

    /// Takes what bring-up learnt of the controller.
    pub(crate) fn learn(&mut self, data: CtrlData)
        requires
            old(self)@.wf(),
        ensures
            final(self)@ == (CtrlModel {
                serial: data.serial@,
                model: data.model@,
                firm: data.firm@,
                mts: data.mts,
                mqe: data.mqe,
                min_pg: data.min_pg,
                ..old(self)@
            }),
            final(self)@.wf(),
            final(self).provider() == old(self).provider(),
    {
        self.data = data;
    }

    /// Whether no I/O queue has a command in flight.
    pub fn io_idle(&self) -> (r: bool)
        requires
            self@.wf(),
        ensures
            r == self@.io_idle(),
    {
        let mut i: usize = 0;
        while i < self.io.len()
            invariant
                i <= self.io@.len(),
                forall|k: int| 0 <= k < i ==> (#[trigger] self@.io[k]).sq.pending == 0,
            decreases self.io@.len() - i,
        {
            proof {
                assert(self@.io[i as int] == self.io@[i as int]@);
            }
            if !self.io[i].is_idle() {
                return false;
            }
            i += 1;
        }
        true
    }

    /// Whether the admin queue has no command in flight.
    pub fn admin_idle(&self) -> (r: bool)
        requires
            self@.wf(),
        ensures
            r == self@.admin_idle(),
    {
        match &self.admin {
            Some(q) => q.is_idle(),
            None => true,
        }
    }

    /// Whether I/O queue `qid`, if there is one, has no command in flight.
    pub fn queue_idle(&self, qid: u16) -> (r: bool)
        requires
            self@.wf(),
            qid != 0,
        ensures
            r == (self@.knows(qid) ==> self@.queue(qid).sq.pending == 0),
    {
        match self.find(qid) {
            Some(i) => {
                proof {
                    assert(self@.io[i as int] == self.io@[i as int]@);
                }
                self.io[i].is_idle()
            },
            None => true,
        }
    }

    /// The lowest identifier from 1 to the controller's maximum that no I/O
    /// queue carries, if there is one left.
    pub fn lowest_unused(&self) -> (r: Option<u16>)
        requires
            self@.wf(),
        ensures
            r matches Some(qid) ==> self@.is_lowest_unused(qid),
            r is None ==> self@.is_full(),
    {
        let mqe = self.data.mqe as usize;
        let mut i: usize = 0;
        while i < self.io.len() && self.io[i].qid() as usize == i + 1
            invariant
                i <= self.io@.len(),
                i <= 0xFFFF,
                self@.wf(),
                mqe == self@.mqe,
                forall|k: int| 0 <= k < i ==> (#[trigger] self@.io[k]).qid == k + 1,
            decreases self.io@.len() - i,
        {
            proof {
                assert(self@.io[i as int] == self.io@[i as int]@);
            }
            i += 1;
        }
        proof {
            if i < self.io@.len() {
                assert(self@.io[i as int] == self.io@[i as int]@);
            }
            assert forall|other: u16| 1 <= other <= i implies self@.knows(other) by {
                assert(self@.io[other - 1].qid == other);
            }
        }
        if i + 1 > mqe {
            return None;
        }
        let qid = (i + 1) as u16;
        proof {
            if self@.knows(qid) {
                let k = self@.place(qid);
                assert(0 <= k < self@.io.len() && self@.io[k].qid == qid);
                if k < i {
                    assert(self@.io[k].qid == k + 1);
                } else {
                    if k > i {
                        assert(self@.io[i as int].qid < self@.io[k].qid);
                    }
                    if i > 0 {
                        assert(self@.io[i - 1].qid == i);
                        assert(self@.io[i - 1].qid < self@.io[i as int].qid);
                    }
                    assert(self@.io[i as int].qid >= 1);
                    assert(false);
                }
            }
        }
        Some(qid)
    }

    /// Takes `q` as an I/O queue, in its place among the others.
    pub(crate) fn adopt(&mut self, q: Queue<A>)
        requires
            old(self)@.wf(),
            q@.wf(),
            q@.qid >= 1,
            !old(self)@.knows(q@.qid),
        ensures
            final(self)@ == old(self)@.adopted(q@),
            final(self)@.wf(),
            final(self).provider() == old(self).provider(),
    {
        let qid = q.qid();
        let mut p: usize = 0;
        while p < self.io.len() && self.io[p].qid() < qid
            invariant
                p <= self.io@.len(),
                self@.wf(),
                forall|k: int| 0 <= k < p ==> (#[trigger] self@.io[k]).qid < qid,
            decreases self.io@.len() - p,
        {
            proof {
                assert(self@.io[p as int] == self.io@[p as int]@);
            }
            p += 1;
        }
        proof {
            if p < self.io@.len() {
                assert(self@.io[p as int] == self.io@[p as int]@);
            }
            assert forall|i: int| p <= i < self@.io.len() implies (#[trigger] self@.io[i]).qid
                >= qid by {
                if i > p {
                    assert(self@.io[p as int].qid < self@.io[i].qid);
                }
            }
            assert(self@.is_rank(qid, p as int));
            lemma_rank(self@, qid, p as int);
            lemma_adopted(self@, q@);
        }
        self.io.insert(p, q);
        proof {
            assert(self@.io =~= old(self)@.io.insert(p as int, q@));
        }
    }

    /// Takes I/O queue `qid` away and hands it over, if there is one.
    pub(crate) fn evict(&mut self, qid: u16) -> (r: Option<Queue<A>>)
        requires
            old(self)@.wf(),
        ensures
            final(self)@.wf(),
            final(self).provider() == old(self).provider(),
            qid == 0 || !old(self)@.knows(qid) ==> r is None && final(self)@ == old(self)@,
            qid != 0 && old(self)@.knows(qid) ==> (r matches Some(q) && q@ == old(self)@.queue(qid)
                && q@.wf()) && final(self)@ == old(self)@.evicted(qid),
    {
        match self.find(qid) {
            None => None,
            Some(i) => {
                proof {
                    assert(self@.io[i as int] == self.io@[i as int]@);
                    lemma_evicted(self@, qid);
                }
                let q = self.io.remove(i);
                proof {
                    assert(self@.io =~= old(self)@.io.remove(i as int));
                }
                Some(q)
            },
        }
    }

    /// The identifiers of the I/O queues, in ascending order.
    pub fn qids(&self) -> (r: Vec<u16>)
        ensures
            r@ == self@.qids(),
    {
        let mut r: Vec<u16> = Vec::new();
        let mut i: usize = 0;
        while i < self.io.len()
            invariant
                i <= self.io@.len(),
                r@ == self@.qids().take(i as int),
            decreases self.io@.len() - i,
        {
            r.push(self.io[i].qid());
            proof {
                assert(self@.io[i as int] == self.io@[i as int]@);
                assert(self@.qids().take(i + 1) =~= self@.qids().take(i as int).push(
                    self@.qids()[i as int],
                ));
            }
            i += 1;
        }
        assert(self@.qids().take(i as int) =~= self@.qids());
        r
    }
}

/// Appends to `stores` the store that hands scratch memory back to the
/// provider.
pub fn give_back(scratch: Option<(usize, usize)>, stores: &mut Vec<Store>)
    ensures
        final(stores)@ == old(stores)@ + frees(scratch),
{
    match scratch {
        Some((addr, len)) => {
            stores.push(Store::Free { addr, len });
            assert(stores@ =~= old(stores)@ + frees(scratch));
        },
        None => {
            assert(stores@ =~= old(stores)@ + frees(scratch));
        },
    }
}

/// Reads the queue counts that a Set Features (Number of Queues) completion
/// grants.
pub fn counts_granted(dw0: u32) -> (r: (u16, u16))
    ensures
        r == granted(dw0),
{
    proof {
        crate::bits::lemma_and_bound32(dw0, 0xFFFF);
        crate::bits::lemma_and_bound32(dw0 >> 16, 0xFFFF);
    }
    let nsq = ((dw0 & 0xFFFFu32) as u16).wrapping_add(1);
    let ncq = (((dw0 >> 16u32) & 0xFFFFu32) as u16).wrapping_add(1);
    (nsq, ncq)
}

} // verus!
