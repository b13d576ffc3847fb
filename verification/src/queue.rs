//! Submission and completion rings. A ring decides where the next entry
//! goes and what the doorbell is told; the host does the stores and hands
//! back what it reads from the completion ring.

use vstd::prelude::*;
use core::marker::PhantomData;
use crate::bus::Store;
use crate::cmd::{Cmd, Sqe};
use crate::err::{NVMeError, Result};
use crate::ram::Dma;
use crate::reg::{cq_doorbell, doorbell_cq, doorbell_sq, sq_doorbell, DSTRD_MAX};
use crate::wire::{le16, le32, rd16, rd32};

verus! {

broadcast use vstd::slice::group_slice_axioms;

/// Bytes of one submission queue entry.
pub const SQE_LEN: usize = 64;

/// Bytes of one completion queue entry.
pub const CQE_LEN: usize = 16;

/// The largest ring that 16-bit head and tail indices can walk.
pub const RING_MAX: usize = 0xFFFF;

/// Bytes of a submission ring of `size` entries: 64 for each.
pub fn sq_bytes(size: usize) -> (bytes: usize)
    requires
        size <= RING_MAX,
    ensures
        bytes == SQE_LEN * size,
{
    size * SQE_LEN
}

/// Bytes of a completion ring of `size` entries: 16 for each.
pub fn cq_bytes(size: usize) -> (bytes: usize)
    requires
        size <= RING_MAX,
    ensures
        bytes == CQE_LEN * size,
{
    size * CQE_LEN
}

/// A completion queue entry.
#[derive(Clone, Copy, Debug, PartialEq, Eq)]
pub struct Cqe {
    pub dw0: u32,
    pub dw1: u32,
    pub sqhd: u16,
    pub sqid: u16,
    pub cid: u16,
    pub sf: u16,
}

impl Cqe {
    /// The phase tag: bit 0 of the status field.
    pub open spec fn phase_tag(self) -> bool {
        self.sf & 1 != 0
    }

    /// The status code with its type: bits 11..1 of the status field.
    pub open spec fn status_code(self) -> u16 {
        (self.sf >> 1) & 0x7FF
    }

    /// Whether every field holds what the layout puts at its offset from `at`.
    pub open spec fn laid_out(self, b: Seq<u8>, at: int) -> bool {
        &&& self.dw0 == le32(b, at)
        &&& self.dw1 == le32(b, at + 4)
        &&& self.sqhd == le16(b, at + 8)
        &&& self.sqid == le16(b, at + 10)
        &&& self.cid == le16(b, at + 12)
        &&& self.sf == le16(b, at + 14)
    }

    /// Reads an entry from the start of `b`, where `b` is long enough to
    /// hold one.
    pub fn from_bytes(b: &[u8]) -> (r: Option<Self>)
        ensures
            b.len() < CQE_LEN ==> r is None,
            b.len() >= CQE_LEN ==> (r matches Some(c) && c.laid_out(b@, 0)),
    {
        if b.len() < CQE_LEN {
            return None;
        }
        Some(
            Cqe {
                dw0: rd32(b, 0),
                dw1: rd32(b, 4),
                sqhd: rd16(b, 8),
                sqid: rd16(b, 10),
                cid: rd16(b, 12),
                sf: rd16(b, 14),
            },
        )
    }

    pub fn phase(&self) -> (r: bool)
        ensures
            r == self.phase_tag(),
    {
        return (self.sf & 1) != 0;
    }

    pub fn status(&self) -> (r: u16)
        ensures
            r == self.status_code(),
            r <= 0x7FF,
    {
        proof {
            crate::bits::lemma_and_bound16(self.sf >> 1, 0x7FF);
        }
        return (self.sf >> 1) & 0x7FF;
    }

    pub fn ok(&self) -> (r: bool)
        ensures
            r == (self.status_code() == 0),
    {
        return self.status() == 0;
    }

    /// What a command that completed with this entry returns: the entry,
    /// or the failure that carries its status code.
    pub open spec fn outcome(self) -> Result<Cqe> {
        if self.status_code() == 0 {
            Ok(self)
        } else {
            Err(NVMeError::CmdFail(self.status_code()))
        }
    }
}

/// A submission ring as a value.
pub struct SqModel {
    pub qid: u16,
    pub addr: usize,
    pub phys: u64,
    pub size: usize,
    pub tail: u16,
    pub cid: u16,
    pub pending: u16,
}

impl SqModel {
    /// A ring has between 1 and 65535 entries of 64 bytes each in memory
    /// that does not wrap round the address space, and its tail is one of
    /// its entries.
    pub open spec fn wf(self) -> bool {
        &&& 1 <= self.size <= RING_MAX
        &&& self.tail < self.size
        &&& self.addr != 0
        &&& self.addr + SQE_LEN * self.size <= usize::MAX
    }

    /// A ring as it is after construction.
    pub open spec fn fresh(qid: u16, size: usize, addr: usize, phys: u64) -> SqModel {
        SqModel { qid, addr, phys, size, tail: 0, cid: 0, pending: 0 }
    }

    /// Address of the entry that the next submission fills.
    pub open spec fn slot(self) -> int {
        self.addr + SQE_LEN * self.tail
    }

    /// The tail after one more submission.
    pub open spec fn next_tail(self) -> u16 {
        ((self.tail + 1) % (self.size as int)) as u16
    }

    /// The ring after `next_cid`.
    pub open spec fn took_cid(self) -> SqModel {
        SqModel { cid: ((self.cid + 1) % 0x1_0000) as u16, ..self }
    }

    /// The ring after `submit`.
    pub open spec fn submitted(self) -> SqModel {
        SqModel {
            tail: self.next_tail(),
            pending: ((self.pending + 1) % 0x1_0000) as u16,
            ..self
        }
    }

    /// The ring after one command has been completed.
    pub open spec fn retired(self) -> SqModel {
        SqModel { pending: ((self.pending + 0xFFFF) % 0x1_0000) as u16, ..self }
    }
}

/// The submission half of a queue pair.
pub struct Sq<A: Dma> {
    qid: u16,
    addr: usize,
    phys: u64,
    size: usize,
    tail: u16,
    cid: u16,
    pending: u16,
    _alloc: PhantomData<A>,
}

impl<A: Dma> View for Sq<A> {
    type V = SqModel;

    closed spec fn view(&self) -> SqModel {
        SqModel {
            qid: self.qid,
            addr: self.addr,
            phys: self.phys,
            size: self.size,
            tail: self.tail,
            cid: self.cid,
            pending: self.pending,
        }
    }
}

impl<A: Dma> Sq<A> {
    /// A ring over the `size` entries at `addr`, whose physical address is
    /// `phys`; no ring where `addr` is 0 or the entries would wrap round the
    /// address space.
    pub fn at(qid: u16, size: usize, addr: usize, phys: u64) -> (r: Result<Self>)
        requires
            1 <= size <= RING_MAX,
        ensures
            addr == 0 || addr + SQE_LEN * size > usize::MAX ==> r == Err::<Self, NVMeError>(
                NVMeError::OoRam,
            ),
            addr != 0 && addr + SQE_LEN * size <= usize::MAX ==> (r matches Ok(sq) && sq@.wf()
                && sq@ == SqModel::fresh(qid, size, addr, phys)),
    {
        if addr == 0 || addr > usize::MAX - SQE_LEN * size {
            return Err(NVMeError::OoRam);
        }
        Ok(Self { qid, addr, phys, size, tail: 0, cid: 0, pending: 0, _alloc: PhantomData })
    }

    /// Asks the provider for the memory of a ring of `size` entries, as
    /// many bytes as `sq_bytes` says, and builds the ring over it. The host
    /// has to zero the ring's memory before the device is told of it.
    pub fn new(qid: u16, size: usize, alloc: &A) -> (r: Result<Self>)
        requires
            1 <= size <= RING_MAX,
        ensures
            match r {
                Ok(sq) => sq@.wf() && sq@ == SqModel::fresh(
                    qid,
                    size,
                    sq@.addr,
                    alloc.phys(sq@.addr) as u64,
                ),
                Err(e) => e == NVMeError::OoRam,
            },
    {
        let addr = alloc.allocate(sq_bytes(size));
        if addr == 0 {
            return Err(NVMeError::OoRam);
        }
        let phys = alloc.virt_to_phys(addr) as u64;
        return Self::at(qid, size, addr, phys);
    }

    /// Gives the ring up: the store that hands its memory back to the
    /// provider.
    pub fn release(self) -> (r: Store)
        requires
            self@.wf(),
        ensures
            r == (Store::Free { addr: self@.addr, len: (SQE_LEN * self@.size) as usize }),
    {
        Store::Free { addr: self.addr, len: sq_bytes(self.size) }
    }

    pub fn qid(&self) -> (r: u16)
        ensures
            r == self@.qid,
    {
        return self.qid;
    }

    /// Virtual address of the ring's memory.
    pub fn addr(&self) -> (r: usize)
        ensures
            r == self@.addr,
    {
        return self.addr;
    }

    /// Bytes of the ring's memory.
    pub fn bytes(&self) -> (r: usize)
        requires
            self@.wf(),
        ensures
            r == SQE_LEN * self@.size,
    {
        return sq_bytes(self.size);
    }

    pub fn phys(&self) -> (r: u64)
        ensures
            r == self@.phys,
    {
        return self.phys;
    }

    pub fn size(&self) -> (r: usize)
        ensures
            r == self@.size,
    {
        return self.size;
    }

    pub fn tail(&self) -> (r: u16)
        ensures
            r == self@.tail,
    {
        return self.tail;
    }

    /// Commands submitted and not yet completed.
    pub fn pending(&self) -> (r: u16)
        ensures
            r == self@.pending,
    {
        return self.pending;
    }

    /// Hands out the next command identifier: the counter's value, which
    /// then moves on by one modulo 2^16.
    pub fn next_cid(&mut self) -> (cid: u16)
        requires
            old(self)@.wf(),
        ensures
            final(self)@.wf(),
            cid == old(self)@.cid,
            final(self)@ == old(self)@.took_cid(),
    {
        let cid = self.cid;
        self.cid = cid.wrapping_add(1);
        return cid;
    }

    /// Takes the next slot for `sqe`. The host stores the entry and then
    /// rings the doorbell with the new tail, in that order.
    pub fn submit(&mut self, sqe: &Sqe, dstrd: u8) -> (r: (Store, Store))
        requires
            old(self)@.wf(),
            dstrd <= DSTRD_MAX,
            sq_doorbell(old(self)@.qid, dstrd) <= usize::MAX,
        ensures
            final(self)@.wf(),
            final(self)@ == old(self)@.submitted(),
            r.0 == (Store::Entry { addr: old(self)@.slot() as usize, sqe: *sqe }),
            r.1 == (Store::Reg32 {
                off: sq_doorbell(old(self)@.qid, dstrd) as usize,
                val: old(self)@.next_tail() as u32,
            }),
    {
        let tail = self.tail;
        let next: u16 = ((tail as usize + 1) % self.size) as u16;
        let slot = self.addr + (tail as usize) * SQE_LEN;
        let db = doorbell_sq(self.qid, dstrd);
        self.pending = self.pending.wrapping_add(1);
        self.tail = next;
        return (Store::Entry { addr: slot, sqe: *sqe }, Store::Reg32 { off: db, val: next as u32 });
    }

    /// Takes one command off the count of those in flight.
    pub fn retire(&mut self)
        requires
            old(self)@.wf(),
        ensures
            final(self)@.wf(),
            final(self)@ == old(self)@.retired(),
    {
        self.pending = self.pending.wrapping_sub(1);
    }

    pub fn is_idle(&self) -> (r: bool)
        ensures
            r == (self@.pending == 0),
    {
        return self.pending == 0;
    }
}

/// A completion ring as a value.
pub struct CqModel {
    pub qid: u16,
    pub addr: usize,
    pub phys: u64,
    pub size: usize,
    pub head: u16,
    pub phase: bool,
}

impl CqModel {
    /// A ring has between 1 and 65535 entries of 16 bytes each in memory
    /// that does not wrap round the address space, and its head is one of
    /// its entries.
    pub open spec fn wf(self) -> bool {
        &&& 1 <= self.size <= RING_MAX
        &&& self.head < self.size
        &&& self.addr != 0
        &&& self.addr + CQE_LEN * self.size <= usize::MAX
    }

    /// A ring as it is after construction: head 0, expected phase 1.
    pub open spec fn fresh(qid: u16, size: usize, addr: usize, phys: u64) -> CqModel {
        CqModel { qid, addr, phys, size, head: 0, phase: true }
    }

    /// Address of the entry that the device fills next.
    pub open spec fn slot(self) -> int {
        self.addr + CQE_LEN * self.head
    }

    /// Whether `cqe` is the completion of command `cid`: it carries the
    /// expected phase and that identifier.
    pub open spec fn accepts(self, cqe: Cqe, cid: u16) -> bool {
        cqe.phase_tag() == self.phase && cqe.cid == cid
    }

    /// The head after one more completion.
    pub open spec fn next_head(self) -> u16 {
        ((self.head + 1) % (self.size as int)) as u16
    }

    /// The ring after one completion has been consumed: the head moves on,
    /// and the expected phase flips where the head wraps to 0.
    pub open spec fn advanced(self) -> CqModel {
        CqModel {
            head: self.next_head(),
            phase: if self.next_head() == 0 {
                !self.phase
            } else {
                self.phase
            },
            ..self
        }
    }

    /// The ring after `n` completions have been consumed.
    pub open spec fn advanced_by(self, n: nat) -> CqModel
        decreases n,
    {
        if n == 0 {
            self
        } else {
            self.advanced_by((n - 1) as nat).advanced()
        }
    }
}

/// The completion half of a queue pair.
pub struct Cq<A: Dma> {
    qid: u16,
    addr: usize,
    phys: u64,
    size: usize,
    head: u16,
    phase: bool,
    _alloc: PhantomData<A>,
}

impl<A: Dma> View for Cq<A> {
    type V = CqModel;

    closed spec fn view(&self) -> CqModel {
        CqModel {
            qid: self.qid,
            addr: self.addr,
            phys: self.phys,
            size: self.size,
            head: self.head,
            phase: self.phase,
        }
    }
}

impl<A: Dma> Cq<A> {
    /// A ring over the `size` entries at `addr`, whose physical address is
    /// `phys`; no ring where `addr` is 0 or the entries would wrap round the
    /// address space.
    pub fn at(qid: u16, size: usize, addr: usize, phys: u64) -> (r: Result<Self>)
        requires
            1 <= size <= RING_MAX,
        ensures
            addr == 0 || addr + CQE_LEN * size > usize::MAX ==> r == Err::<Self, NVMeError>(
                NVMeError::OoRam,
            ),
            addr != 0 && addr + CQE_LEN * size <= usize::MAX ==> (r matches Ok(cq) && cq@.wf()
                && cq@ == CqModel::fresh(qid, size, addr, phys)),
    {
        if addr == 0 || addr > usize::MAX - CQE_LEN * size {
            return Err(NVMeError::OoRam);
        }
        Ok(Self { qid, addr, phys, size, head: 0, phase: true, _alloc: PhantomData })
    }

    /// Asks the provider for the memory of a ring of `size` entries, as
    /// many bytes as `cq_bytes` says, and builds the ring over it. The host
    /// has to zero the ring's memory before the device is told of it.
    pub fn new(qid: u16, size: usize, alloc: &A) -> (r: Result<Self>)
        requires
            1 <= size <= RING_MAX,
        ensures
            match r {
                Ok(cq) => cq@.wf() && cq@ == CqModel::fresh(
                    qid,
                    size,
                    cq@.addr,
                    alloc.phys(cq@.addr) as u64,
                ),
                Err(e) => e == NVMeError::OoRam,
            },
    {
        let addr = alloc.allocate(cq_bytes(size));
        if addr == 0 {
            return Err(NVMeError::OoRam);
        }
        let phys = alloc.virt_to_phys(addr) as u64;
        return Self::at(qid, size, addr, phys);
    }

    /// Gives the ring up: the store that hands its memory back to the
    /// provider.
    pub fn release(self) -> (r: Store)
        requires
            self@.wf(),
        ensures
            r == (Store::Free { addr: self@.addr, len: (CQE_LEN * self@.size) as usize }),
    {
        Store::Free { addr: self.addr, len: cq_bytes(self.size) }
    }

    pub fn qid(&self) -> (r: u16)
        ensures
            r == self@.qid,
    {
        return self.qid;
    }

    /// Virtual address of the ring's memory.
    pub fn addr(&self) -> (r: usize)
        ensures
            r == self@.addr,
    {
        return self.addr;
    }

    /// Bytes of the ring's memory.
    pub fn bytes(&self) -> (r: usize)
        requires
            self@.wf(),
        ensures
            r == CQE_LEN * self@.size,
    {
        return cq_bytes(self.size);
    }

    pub fn phys(&self) -> (r: u64)
        ensures
            r == self@.phys,
    {
        return self.phys;
    }

    pub fn size(&self) -> (r: usize)
        ensures
            r == self@.size,
    {
        return self.size;
    }

    pub fn head(&self) -> (r: u16)
        ensures
            r == self@.head,
    {
        return self.head;
    }

    /// The phase tag that the next completion carries.
    pub fn expected_phase(&self) -> (r: bool)
        ensures
            r == self@.phase,
    {
        return self.phase;
    }

    /// Address of the entry that the host reads next.
    pub fn slot(&self) -> (r: usize)
        requires
            self@.wf(),
        ensures
            r == self@.slot(),
    {
        return self.addr + (self.head as usize) * CQE_LEN;
    }

    /// Looks at `cqe`, which the host read from `slot()`, on behalf of
    /// command `cid`. While the entry is not that command's completion
    /// nothing changes and the host reads again. Once it is, the head moves
    /// on, and the host writes it to the doorbell; the command has succeeded
    /// where the entry's status is 0 and has failed with that status
    /// otherwise.
    pub fn poll(&mut self, cid: u16, cqe: &Cqe, dstrd: u8) -> (r: Option<(Store, Result<Cqe>)>)
        requires
            old(self)@.wf(),
            dstrd <= DSTRD_MAX,
            cq_doorbell(old(self)@.qid, dstrd) <= usize::MAX,
        ensures
            final(self)@.wf(),
            !old(self)@.accepts(*cqe, cid) ==> r is None && final(self)@ == old(self)@,
            old(self)@.accepts(*cqe, cid) ==> final(self)@ == old(self)@.advanced() && r == Some(
                (
                    (Store::Reg32 {
                        off: cq_doorbell(old(self)@.qid, dstrd) as usize,
                        val: old(self)@.next_head() as u32,
                    }),
                    cqe.outcome(),
                ),
            ),
    {
        if !(cqe.phase() == self.phase && cqe.cid == cid) {
            return None;
        }
        let next: u16 = ((self.head as usize + 1) % self.size) as u16;
        let phase = if next == 0 {
            !self.phase
        } else {
            self.phase
        };
        let db = doorbell_cq(self.qid, dstrd);
        *self = Cq {
            qid: self.qid,
            addr: self.addr,
            phys: self.phys,
            size: self.size,
            head: next,
            phase,
            _alloc: PhantomData,
        };
        let res = if !cqe.ok() {
            Err(NVMeError::CmdFail(cqe.status()))
        } else {
            Ok(*cqe)
        };
        return Some((Store::Reg32 { off: db, val: next as u32 }, res));
    }
}

/// A queue pair as a value.
pub struct QueueModel {
    pub qid: u16,
    pub sq: SqModel,
    pub cq: CqModel,
}

impl QueueModel {
    /// Both rings are well formed, carry the pair's identifier and have the
    /// same number of entries.
    pub open spec fn wf(self) -> bool {
        &&& self.sq.wf()
        &&& self.cq.wf()
        &&& self.sq.qid == self.qid
        &&& self.cq.qid == self.qid
        &&& self.sq.size == self.cq.size
    }

    /// The pair after `submit`: one identifier taken, one slot filled.
    pub open spec fn submitted(self) -> QueueModel {
        QueueModel { sq: self.sq.took_cid().submitted(), ..self }
    }

    /// The pair after `complete` was handed `cqe` on behalf of `cid`.
    pub open spec fn completed(self, cid: u16, cqe: Cqe) -> QueueModel {
        if self.cq.accepts(cqe, cid) {
            QueueModel { sq: self.sq.retired(), cq: self.cq.advanced(), ..self }
        } else {
            self
        }
    }

    /// The stores of a submission of `cmd`: the entry into the next slot,
    /// then the new tail to the doorbell.
    pub open spec fn submission(self, cmd: Cmd, dstrd: u8) -> Seq<Store> {
        seq![
            Store::Entry { addr: self.sq.slot() as usize, sqe: cmd.entry(self.sq.cid) },
            Store::Reg32 {
                off: sq_doorbell(self.qid, dstrd) as usize,
                val: self.sq.next_tail() as u32,
            },
        ]
    }

    /// The store that follows a completion: the new head to the doorbell.
    pub open spec fn acknowledgement(self, dstrd: u8) -> Store {
        Store::Reg32 {
            off: cq_doorbell(self.qid, dstrd) as usize,
            val: self.cq.next_head() as u32,
        }
    }

    /// The stores that hand the memory of both rings back to the provider.
    pub open spec fn releasing(self) -> Seq<Store> {
        seq![
            Store::Free { addr: self.sq.addr, len: (SQE_LEN * self.sq.size) as usize },
            Store::Free { addr: self.cq.addr, len: (CQE_LEN * self.cq.size) as usize },
        ]
    }

    /// The stores that zero both rings.
    pub open spec fn clearing(self) -> Seq<Store> {
        seq![
            Store::Zero { addr: self.sq.addr, len: (SQE_LEN * self.sq.size) as usize },
            Store::Zero { addr: self.cq.addr, len: (CQE_LEN * self.cq.size) as usize },
        ]
    }
}

/// What `Queue::new` owes for a pair of `size` entries under `qid`, where
/// `before` are the stores it was handed and `after` the stores it hands
/// back.
///
/// - With memory for both rings: a fresh pair in that memory, and the
///   stores that zero both rings.
/// - Without memory for the first ring: `OoRam`, and no store.
/// - Without memory for the second ring: `OoRam`, and the store that hands
///   the memory of the first back to the provider.
pub open spec fn pair_made<A: Dma>(
    provider: A,
    qid: u16,
    size: usize,
    r: Result<Queue<A>>,
    before: Seq<Store>,
    after: Seq<Store>,
) -> bool {
    match r {
        Ok(q) => {
            &&& q@.wf()
            &&& q@ == (QueueModel {
                qid,
                sq: SqModel::fresh(qid, size, q@.sq.addr, provider.phys(q@.sq.addr) as u64),
                cq: CqModel::fresh(qid, size, q@.cq.addr, provider.phys(q@.cq.addr) as u64),
            })
            &&& after == before + q@.clearing()
        },
        Err(e) => {
            &&& e == NVMeError::OoRam
            &&& after == before || exists|addr: usize| #[trigger]
                given_up(before, after, addr, size)
        },
    }
}

/// Whether `after` is `before` with the store that hands the submission
/// ring of `size` entries at `addr` back to the provider.
pub open spec fn given_up(before: Seq<Store>, after: Seq<Store>, addr: usize, size: usize) -> bool {
    addr != 0 && after == before.push(
        Store::Free { addr, len: (SQE_LEN * size) as usize },
    )
}

/// A submission ring and a completion ring under one identifier.
pub struct Queue<A: Dma> {
    qid: u16,
    sq: Sq<A>,
    cq: Cq<A>,
}

impl<A: Dma> View for Queue<A> {
    type V = QueueModel;

    closed spec fn view(&self) -> QueueModel {
        QueueModel { qid: self.qid, sq: self.sq@, cq: self.cq@ }
    }
}

impl<A: Dma> Queue<A> {
    /// Asks the provider for the memory of both rings and hands what came
    /// back to `pair`.
    pub fn new(qid: u16, size: usize, alloc: &A, stores: &mut Vec<Store>) -> (r: Result<Self>)
        requires
            1 <= size <= RING_MAX,
        ensures
            pair_made(*alloc, qid, size, r, old(stores)@, final(stores)@),
    {
        let sq = match Sq::new(qid, size, alloc) {
            Ok(sq) => sq,
            Err(e) => {
                return Err(e);
            },
        };
        let ghost first = sq@;
        let r = Self::pair(sq, Cq::new(qid, size, alloc), stores);
        proof {
            if r is Err {
                assert(given_up(old(stores)@, stores@, first.addr, size));
            }
        }
        return r;
    }

    /// Builds the pair out of the submission ring `sq` and of what the
    /// request for the completion ring yielded. With both rings there, the
    /// stores that zero them are appended to `stores`. Without the completion
    /// ring there is no pair, and the store that hands the memory of the
    /// submission ring back to the provider is appended.
    pub fn pair(sq: Sq<A>, cq: Result<Cq<A>>, stores: &mut Vec<Store>) -> (r: Result<Self>)
        requires
            sq@.wf(),
            cq matches Ok(c) ==> c@.wf() && c@.qid == sq@.qid && c@.size == sq@.size,
        ensures
            match cq {
                Ok(c) => r matches Ok(q) && q@.wf() && q@ == (QueueModel {
                    qid: sq@.qid,
                    sq: sq@,
                    cq: c@,
                }) && final(stores)@ == old(stores)@ + q@.clearing(),
                Err(e) => r == Err::<Self, NVMeError>(e) && final(stores)@ == old(stores)@.push(
                    Store::Free { addr: sq@.addr, len: (SQE_LEN * sq@.size) as usize },
                ),
            },
    {
        match cq {
            Ok(cq) => {
                let q = Self { qid: sq.qid(), sq, cq };
                q.clear(stores);
                Ok(q)
            },
            Err(e) => {
                stores.push(sq.release());
                Err(e)
            },
        }
    }

    /// Gives the queue pair up: appends to `stores` the stores that hand
    /// the memory of both rings back to the provider.
    pub fn release(self, stores: &mut Vec<Store>)
        requires
            self@.wf(),
        ensures
            final(stores)@ == old(stores)@ + self@.releasing(),
    {
        let a = self.sq.release();
        let b = self.cq.release();
        stores.push(a);
        stores.push(b);
        assert(stores@ =~= old(stores)@ + self@.releasing());
    }

    pub fn qid(&self) -> (r: u16)
        ensures
            r == self@.qid,
    {
        return self.qid;
    }

    pub fn sq_phys(&self) -> (r: u64)
        ensures
            r == self@.sq.phys,
    {
        return self.sq.phys();
    }

    pub fn cq_phys(&self) -> (r: u64)
        ensures
            r == self@.cq.phys,
    {
        return self.cq.phys();
    }

    /// The entries of the pair: those of each of its rings.
    pub fn size(&self) -> (r: usize)
        requires
            self@.wf(),
        ensures
            r == self@.sq.size,
            r == self@.cq.size,
            1 <= r <= RING_MAX,
    {
        return self.sq.size();
    }

    /// The submission ring.
    pub fn sq(&self) -> (r: &Sq<A>)
        ensures
            r@ == self@.sq,
    {
        &self.sq
    }

    /// The completion ring.
    pub fn cq(&self) -> (r: &Cq<A>)
        ensures
            r@ == self@.cq,
    {
        &self.cq
    }

    /// The stores that zero both rings.
    pub fn clear(&self, stores: &mut Vec<Store>)
        requires
            self@.wf(),
        ensures
            final(stores)@ == old(stores)@ + self@.clearing(),
    {
        stores.push(Store::Zero { addr: self.sq.addr(), len: self.sq.bytes() });
        stores.push(Store::Zero { addr: self.cq.addr(), len: self.cq.bytes() });
        assert(stores@ =~= old(stores)@ + self@.clearing());
    }

    /// Submits `cmd` under a fresh identifier, which is returned. The host
    /// performs the stores appended to `stores`, then reads the completion
    /// ring at `cq().slot()` and hands each entry to `complete` until that
    /// accepts one.
    pub fn submit(&mut self, cmd: &Cmd, dstrd: u8, stores: &mut Vec<Store>) -> (cid: u16)
        requires
            old(self)@.wf(),
            dstrd <= DSTRD_MAX,
            sq_doorbell(old(self)@.qid, dstrd) <= usize::MAX,
        ensures
            final(self)@.wf(),
            cid == old(self)@.sq.cid,
            final(self)@ == old(self)@.submitted(),
            final(stores)@ == old(stores)@ + old(self)@.submission(*cmd, dstrd),
    {
        let cid = self.sq.next_cid();
        let sqe = cmd.to_sqe(cid);
        let (entry, bell) = self.sq.submit(&sqe, dstrd);
        stores.push(entry);
        stores.push(bell);
        assert(stores@ =~= old(stores)@ + old(self)@.submission(*cmd, dstrd));
        return cid;
    }

    /// Looks at `cqe`, which the host read from the completion ring, on
    /// behalf of command `cid`. While the entry is not that command's
    /// completion nothing changes. Once it is, the head moves on, the store
    /// that tells the doorbell is appended to `stores`, the command no longer
    /// counts as in flight, and its outcome is returned.
    pub fn complete(&mut self, cid: u16, cqe: &Cqe, dstrd: u8, stores: &mut Vec<Store>) -> (r:
        Option<Result<Cqe>>)
        requires
            old(self)@.wf(),
            dstrd <= DSTRD_MAX,
            cq_doorbell(old(self)@.qid, dstrd) <= usize::MAX,
        ensures
            final(self)@.wf(),
            final(self)@ == old(self)@.completed(cid, *cqe),
            !old(self)@.cq.accepts(*cqe, cid) ==> r is None && final(stores)@ == old(stores)@,
            old(self)@.cq.accepts(*cqe, cid) ==> r == Some(cqe.outcome()) && final(stores)@ == old(
                stores)@.push(old(self)@.acknowledgement(dstrd)),
    {
        match self.cq.poll(cid, cqe, dstrd) {
            None => None,
            Some((bell, res)) => {
                self.sq.retire();
                stores.push(bell);
                Some(res)
            },
        }
    }

    pub fn is_idle(&self) -> (r: bool)
        ensures
            r == (self@.sq.pending == 0),
    {
        return self.sq.is_idle();
    }
}

/// One step round a ring of `n` entries: on by one, and back to 0 from the
/// last entry.
pub proof fn lemma_wrap_step(x: int, n: int)
    requires
        0 <= x < n,
    ensures
        (x + 1) % n == (if x + 1 == n {
            0
        } else {
            x + 1
        }),
{
    if x + 1 == n {
        vstd::arithmetic::div_mod::lemma_mod_self_0(n);
    } else {
        vstd::arithmetic::div_mod::lemma_small_mod((x + 1) as nat, n as nat);
    }
}

/// Starting with head 0, a ring of `size` entries has its head at `k` and
/// its expected phase unchanged after `k < size` completions; after exactly
/// `size` completions the head is back at 0 and the phase has flipped once.
pub proof fn lemma_phase_law(cq: CqModel, k: nat)
    requires
        cq.wf(),
        cq.head == 0,
        k <= cq.size,
    ensures
        cq.advanced_by(k).wf(),
        k < cq.size ==> cq.advanced_by(k).head == k && cq.advanced_by(k).phase == cq.phase,
        k == cq.size ==> cq.advanced_by(k).head == 0 && cq.advanced_by(k).phase == !cq.phase,
        cq.advanced_by(k).size == cq.size,
    decreases k,
{
    if k > 0 {
        lemma_phase_law(cq, (k - 1) as nat);
        let before = cq.advanced_by((k - 1) as nat);
        assert(before.head == k - 1);
        lemma_wrap_step(before.head as int, cq.size as int);
    }
}

/// Starting with head 0, after any number `n` of completions the head of a
/// ring of `size` entries is at `n mod size`, and the expected phase has
/// flipped once for every full lap: it is the phase the ring started with
/// after an even number of laps, and the opposite after an odd number.
pub proof fn lemma_ring_after(cq: CqModel, n: nat)
    requires
        cq.wf(),
        cq.head == 0,
    ensures
        cq.advanced_by(n).wf(),
        cq.advanced_by(n).size == cq.size,
        cq.advanced_by(n).head == n % (cq.size as nat),
        cq.advanced_by(n).phase == (if (n / (cq.size as nat)) % 2 == 0 {
            cq.phase
        } else {
            !cq.phase
        }),
    decreases n,
{
    let size = cq.size as int;
    if n == 0 {
        vstd::arithmetic::div_mod::lemma_small_mod(0, cq.size as nat);
        vstd::arithmetic::div_mod::lemma_basic_div(0, size);
    } else {
        let m = (n - 1) as nat;
        lemma_ring_after(cq, m);
        let before = cq.advanced_by(m);
        let h = before.head as int;
        let laps = (m as int) / size;
        vstd::arithmetic::div_mod::lemma_fundamental_div_mod(m as int, size);
        lemma_wrap_step(h, size);
        assert(m == size * laps + h);
        if h + 1 == size {
            assert(n == (laps + 1) * size + 0) by (nonlinear_arith)
                requires
                    n == m + 1,
                    m == size * laps + h,
                    h + 1 == size,
            ;
            vstd::arithmetic::div_mod::lemma_fundamental_div_mod_converse(
                n as int,
                size,
                laps + 1,
                0,
            );
        } else {
            assert(n == laps * size + (h + 1)) by (nonlinear_arith)
                requires
                    n == m + 1,
                    m == size * laps + h,
            ;
            vstd::arithmetic::div_mod::lemma_fundamental_div_mod_converse(
                n as int,
                size,
                laps,
                h + 1,
            );
        }
    }
}

/// Each doorbell value follows the one before it by one, modulo the ring
/// size: the tail that a submission writes, and the head that a completion
/// writes. In a ring of more than one entry two writes in a row never carry
/// the same value.
pub proof fn lemma_doorbell_steps(q: QueueModel)
    requires
        q.wf(),
    ensures
        q.submitted().wf(),
        q.submitted().sq.next_tail() == (q.sq.next_tail() + 1) % (q.sq.size as int),
        q.cq.advanced().wf(),
        q.cq.advanced().next_head() == (q.cq.next_head() + 1) % (q.cq.size as int),
        q.sq.size > 1 ==> q.submitted().sq.next_tail() != q.sq.next_tail(),
        q.cq.size > 1 ==> q.cq.advanced().next_head() != q.cq.next_head(),
{
    let n = q.sq.size as int;
    let t = q.sq.tail as int;
    let h = q.cq.head as int;
    lemma_wrap_step(t, n);
    lemma_wrap_step(h, n);
    lemma_wrap_step(q.sq.next_tail() as int, n);
    lemma_wrap_step(q.cq.next_head() as int, n);
}

/// Handing a completion entry to a queue pair leaves it well formed and
/// under its identifier.
pub proof fn lemma_completed(q: QueueModel, cid: u16, cqe: Cqe)
    requires
        q.wf(),
    ensures
        q.completed(cid, cqe).wf(),
        q.completed(cid, cqe).qid == q.qid,
{
    lemma_doorbell_steps(q);
}

/// Two commands submitted one after the other on a queue never carry the
/// same identifier.
pub proof fn lemma_cid_changes(q: QueueModel)
    requires
        q.wf(),
    ensures
        q.submitted().sq.cid != q.sq.cid,
        q.submitted().sq.cid == (q.sq.cid + 1) % 0x1_0000,
{
}

} // verus!
