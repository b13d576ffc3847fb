//! The fleet of I/O queues: creating one, removing one, and bringing their
//! number to what was asked for and granted.

use vstd::prelude::*;
use crate::bits::pair16;
use crate::bus::{Fetch, Next, Plan, Reply, Step, Store};
use crate::cmd::Cmd;
use crate::ctrl::{counts_granted, granted, Ctrl, CtrlModel, Ticket};
use crate::err::NVMeError;
use crate::id::FT_NQ;
use crate::queue::{given_up, CqModel, Cqe, Queue, QueueModel, SqModel, RING_MAX};
use crate::ram::Dma;

verus! {

/// The largest I/O queue that the driver creates of its own accord.
pub const IOQ_DEPTH_MAX: usize = 256;

/// An I/O queue on its way into the fleet.
pub struct NewIoq<A: Dma> {
    /// The queue pair, not yet known to the controller.
    pub queue: Queue<A>,
    /// The admin command in flight.
    pub ticket: Ticket,
    /// Whether the completion queue has been created and the command in
    /// flight creates the submission queue.
    pub bound: bool,
}

impl<A: Dma> NewIoq<A> {
    /// The queue pair is well formed and carries an I/O queue identifier,
    /// and the command in flight is on the admin queue.
    pub open spec fn wf(self) -> bool {
        self.queue@.wf() && self.queue@.qid >= 1 && self.ticket.qid == 0
    }
}

/// How far the removal of an I/O queue has got.
#[derive(Clone, Copy, Debug, PartialEq, Eq)]
pub enum RmStage {
    /// Waiting for the queue to drain.
    Drain,
    /// The deletion of the submission queue is in flight.
    SqDel(Ticket),
    /// The deletion of the completion queue is in flight.
    CqDel(Ticket),
}

/// An I/O queue on its way out of the fleet.
#[derive(Clone, Copy, Debug, PartialEq, Eq)]
pub struct RmIoq {
    pub qid: u16,
    pub stage: RmStage,
}

/// The command that creates the completion queue of `q`.
pub open spec fn cq_create_cmd(q: QueueModel) -> Cmd {
    Cmd {
        opc: 0x05,
        nsid: 0,
        prp1: q.cq.phys,
        prp2: 0,
        cdw10: pair16((q.sq.size - 1) as u16, q.qid),
        cdw11: 0x1,
        cdw12: 0,
    }
}

/// The command that creates the submission queue of `q`, bound to the
/// completion queue of the same identifier.
pub open spec fn sq_create_cmd(q: QueueModel) -> Cmd {
    Cmd {
        opc: 0x01,
        nsid: 0,
        prp1: q.sq.phys,
        prp2: 0,
        cdw10: pair16((q.sq.size - 1) as u16, q.qid),
        cdw11: pair16(q.qid, 0x1),
        cdw12: 0,
    }
}

/// The command that deletes submission queue `qid`.
pub open spec fn sq_del_cmd(qid: u16) -> Cmd {
    Cmd { opc: 0x00, nsid: 0, prp1: 0, prp2: 0, cdw10: qid as u32, cdw11: 0, cdw12: 0 }
}

/// The command that deletes completion queue `qid`.
pub open spec fn cq_del_cmd(qid: u16) -> Cmd {
    Cmd { opc: 0x04, nsid: 0, prp1: 0, prp2: 0, cdw10: qid as u32, cdw11: 0, cdw12: 0 }
}

/// Whether `q` is a fresh queue pair of `size` entries in memory of the
/// provider, under the lowest identifier that `c` has left.
pub open spec fn fresh_pair<A: Dma>(c: CtrlModel, provider: A, size: usize, q: QueueModel) -> bool {
    &&& c.is_lowest_unused(q.qid)
    &&& q.wf()
    &&& q.sq == SqModel::fresh(q.qid, size, q.sq.addr, provider.phys(q.sq.addr) as u64)
    &&& q.cq == CqModel::fresh(q.qid, size, q.cq.addr, provider.phys(q.cq.addr) as u64)
}

/// What `new_ioq_with` owes for the queue pair `q` after the stores `pre`,
/// in a controller `before` that is `after` once the step is taken: without
/// an admin queue the memory of the pair goes back to the provider;
/// otherwise the creation of the completion queue is submitted on the admin
/// queue.
pub open spec fn pair_offered<A: Dma>(
    before: CtrlModel,
    q: QueueModel,
    pre: Seq<Store>,
    s: Step<NewIoq<A>, ()>,
    after: CtrlModel,
) -> bool {
    if before.admin is None {
        after == before && s@ == Plan::<NewIoq<A>, ()>::done(
            pre + q.releasing(),
            Err(NVMeError::InvQp),
        )
    } else {
        &&& after == before.posted(0)
        &&& s.stores@ == pre + before.submission(0, cq_create_cmd(q))
        &&& s.next matches Next::Fetch(f, job)
        &&& f == before.watch(0)
        &&& job.queue@ == q
        &&& job.ticket == before.ticket(0)
        &&& !job.bound
    }
}

/// What `new_ioq` owes for a queue of `size` entries, in a controller
/// `before` that is `after` once the step is taken.
///
/// - No entries, or no identifier left: `FullQp`, and nothing happens.
/// - No memory from the provider: `OoRam`; where the first ring was there
///   and the second was not, the memory of the first goes back.
/// - Otherwise a fresh queue pair under the lowest unused identifier is
///   offered to the controller as `new_ioq_with` does, after the stores that
///   zero both of its rings.
pub open spec fn new_ioq_begun<A: Dma>(
    before: CtrlModel,
    provider: A,
    size: usize,
    s: Step<NewIoq<A>, ()>,
    after: CtrlModel,
) -> bool {
    if size == 0 || before.is_full() {
        after == before && s@ == Plan::<NewIoq<A>, ()>::done(
            Seq::empty(),
            Err(NVMeError::FullQp),
        )
    } else {
        ||| {
            &&& after == before
            &&& s.next == Next::<NewIoq<A>, ()>::Done(Err(NVMeError::OoRam))
            &&& s.stores@ == Seq::<Store>::empty() || exists|addr: usize| #[trigger]
                given_up(Seq::empty(), s.stores@, addr, size)
        }
        ||| exists|q: QueueModel| #[trigger]
            fresh_pair(before, provider, size, q) && pair_offered(
                before,
                q,
                q.clearing(),
                s,
                after,
            )
    }
}

/// What `new_ioq_next` owes when it is handed `reply` for `job`.
///
/// - While the reply does not complete the command in flight, the host
///   reads again.
/// - A failed command ends the operation with its failure; the queue pair is
///   given up, and its memory goes back to the provider.
/// - Once the completion queue is created, the creation of the submission
///   queue is submitted.
/// - Once that is created too, the queue pair joins the fleet; where its
///   identifier has been taken meanwhile, it is given up with `FullQp`.
pub open spec fn new_ioq_went_on<A: Dma>(
    before: CtrlModel,
    job: NewIoq<A>,
    reply: Reply,
    s: Step<NewIoq<A>, ()>,
    after: CtrlModel,
) -> bool {
    let fed = before.fed(job.ticket, reply);
    let acks = before.fed_stores(job.ticket, reply);
    match before.fed_outcome(job.ticket, reply) {
        None => after == fed && s@ == Plan::<NewIoq<A>, ()>::wait(acks, before.watch(0), job),
        Some(Err(e)) => after == fed && s@ == Plan::<NewIoq<A>, ()>::done(
            acks + job.queue@.releasing(),
            Err(e),
        ),
        Some(Ok(_)) => if !job.bound {
            &&& after == fed.posted(0)
            &&& s.stores@ == acks + fed.submission(0, sq_create_cmd(job.queue@))
            &&& s.next matches Next::Fetch(f, then)
            &&& f == fed.watch(0)
            &&& then.queue == job.queue
            &&& then.ticket == fed.ticket(0)
            &&& then.bound
        } else if fed.knows(job.queue@.qid) {
            after == fed && s@ == Plan::<NewIoq<A>, ()>::done(
                acks + job.queue@.releasing(),
                Err(NVMeError::FullQp),
            )
        } else {
            after == fed.adopted(job.queue@) && s@ == Plan::<NewIoq<A>, ()>::done(acks, Ok(()))
        },
    }
}

/// The step of the removal `job` that is handed `reply`, in a controller
/// `c`, and the controller after it.
///
/// - While the queue has commands in flight, the host pauses and comes
///   back.
/// - Then the deletion of the submission queue is submitted, and after it
///   that of the completion queue: in this order, so that no completion can
///   arrive for a queue that is gone.
/// - A failed command ends the operation with its failure, and the queue
///   stays in the fleet.
/// - Once both are deleted the queue leaves the fleet, and its memory goes
///   back to the provider.
pub open spec fn rm_ioq_step(c: CtrlModel, job: RmIoq, reply: Reply) -> (
    CtrlModel,
    Plan<RmIoq, ()>,
) {
    match job.stage {
        RmStage::Drain => if job.qid != 0 && c.knows(job.qid) && c.queue(job.qid).sq.pending
            != 0 {
            (c, Plan::wait(Seq::empty(), Fetch::Pause, job))
        } else if c.admin is None {
            (c, Plan::done(Seq::empty(), Err(NVMeError::InvQp)))
        } else {
            (
                c.posted(0),
                Plan::wait(
                    c.submission(0, sq_del_cmd(job.qid)),
                    c.watch(0),
                    RmIoq { qid: job.qid, stage: RmStage::SqDel(c.ticket(0)) },
                ),
            )
        },
        RmStage::SqDel(t) => {
            let fed = c.fed(t, reply);
            let acks = c.fed_stores(t, reply);
            match c.fed_outcome(t, reply) {
                None => (fed, Plan::wait(acks, c.watch(t.qid), job)),
                Some(Err(e)) => (fed, Plan::done(acks, Err(e))),
                Some(Ok(_)) => if fed.admin is None {
                    (fed, Plan::done(acks, Err(NVMeError::InvQp)))
                } else {
                    (
                        fed.posted(0),
                        Plan::wait(
                            acks + fed.submission(0, cq_del_cmd(job.qid)),
                            fed.watch(0),
                            RmIoq { qid: job.qid, stage: RmStage::CqDel(fed.ticket(0)) },
                        ),
                    )
                },
            }
        },
        RmStage::CqDel(t) => {
            let fed = c.fed(t, reply);
            let acks = c.fed_stores(t, reply);
            match c.fed_outcome(t, reply) {
                None => (fed, Plan::wait(acks, c.watch(t.qid), job)),
                Some(Err(e)) => (fed, Plan::done(acks, Err(e))),
                Some(Ok(_)) => if job.qid != 0 && fed.knows(job.qid) {
                    (
                        fed.evicted(job.qid),
                        Plan::done(acks + fed.queue(job.qid).releasing(), Ok(())),
                    )
                } else {
                    (fed, Plan::done(acks, Ok(())))
                },
            }
        },
    }
}

/// How `rm_ioq` begins: the admin queue and queues that are not there
/// cannot be removed; otherwise the removal takes its first step.
pub open spec fn rm_ioq_begun(c: CtrlModel, qid: u16) -> (CtrlModel, Plan<RmIoq, ()>) {
    if qid == 0 || !c.knows(qid) {
        (c, Plan::done(Seq::empty(), Err(NVMeError::InvQp)))
    } else {
        rm_ioq_step(c, RmIoq { qid, stage: RmStage::Drain }, Reply::Go)
    }
}

/// How far bringing the number of I/O queues to a count has got.
pub enum Resize<A: Dma> {
    /// The request for `count` queues of each kind is in flight.
    Ask { ticket: Ticket, count: u16 },
    /// `left` more queues are to be created to reach `target`.
    More { target: u16, left: u16 },
    /// The creation of one of the `left` queues still missing is under way.
    Grow { target: u16, left: u16, job: NewIoq<A> },
    /// The queues above `target` are to be removed.
    Less { target: u16 },
    /// The removal of one of the queues above `target` is under way.
    Shrink { target: u16, removal: RmIoq },
}

impl<A: Dma> Resize<A> {
    /// A queue on its way into the fleet is well formed.
    pub open spec fn wf(self) -> bool {
        self matches Resize::Grow { job, .. } ==> job.wf()
    }
}

/// The command that asks for `count` queues of each kind.
pub open spec fn count_cmd(count: u16) -> Cmd {
    Cmd {
        opc: 0x09,
        nsid: 0,
        prp1: 0,
        prp2: 0,
        cdw10: FT_NQ as u32,
        cdw11: pair16((count - 1) as u16, (count - 1) as u16),
        cdw12: 0,
    }
}

/// The number of queues to have, when `count` were asked for and the
/// completion `cqe` says how many are granted: the smaller of the two.
pub open spec fn target_of(count: u16, cqe: Cqe) -> u16 {
    if granted(cqe.dw0).0 < count {
        granted(cqe.dw0).0
    } else {
        count
    }
}

/// The entries of an I/O queue that the driver creates of its own accord:
/// as many as the controller allows, and no more than 256.
pub open spec fn own_depth(c: CtrlModel) -> usize {
    if c.mqe < IOQ_DEPTH_MAX {
        c.mqe as usize
    } else {
        IOQ_DEPTH_MAX
    }
}

/// Whether `qid` is the lowest identifier above `target` that an I/O queue
/// carries.
pub open spec fn is_first_above(c: CtrlModel, target: u16, qid: u16) -> bool {
    &&& qid > target
    &&& c.knows(qid)
    &&& forall|other: u16| other > target && c.knows(other) ==> qid <= other
}

/// Whether no I/O queue carries an identifier above `target`.
pub open spec fn none_above(c: CtrlModel, target: u16) -> bool {
    forall|other: u16| other != 0 && c.knows(other) ==> other <= target
}

/// How the resizing goes on once the grant `cqe` has come in for a request
/// of `count`, after the stores `acks`: towards more queues, towards
/// fewer, or to its end where the number is right already.
pub open spec fn decided<A: Dma>(c: CtrlModel, count: u16, cqe: Cqe, acks: Seq<Store>) -> Plan<
    Resize<A>,
    u16,
> {
    let target = target_of(count, cqe);
    if target > c.io.len() {
        Plan::wait(
            acks,
            Fetch::Pause,
            Resize::More { target, left: (target - c.io.len()) as u16 },
        )
    } else if target < c.io.len() {
        Plan::wait(acks, Fetch::Pause, Resize::Less { target })
    } else {
        Plan::done(acks, Ok(target))
    }
}

/// A step of the creation of one of `left` missing queues, as a step of the
/// resizing: a failure ends the resizing, and success leads to the next
/// queue, or to the end where this was the last.
pub open spec fn grow_lifted<A: Dma>(target: u16, left: u16, sub: Plan<NewIoq<A>, ()>) -> Plan<
    Resize<A>,
    u16,
> {
    match sub.next {
        Next::Fetch(f, job) => Plan::wait(sub.stores, f, Resize::Grow { target, left, job }),
        Next::Done(Err(e)) => Plan::done(sub.stores, Err(e)),
        Next::Done(Ok(_)) => if left <= 1 {
            Plan::done(sub.stores, Ok(target))
        } else {
            Plan::wait(
                sub.stores,
                Fetch::Pause,
                Resize::More { target, left: (left - 1) as u16 },
            )
        },
    }
}

/// A step of the removal of one queue above `target`, as a step of the
/// resizing: a failure ends the resizing, and success leads to the next
/// queue above `target`.
pub open spec fn shrink_lifted<A: Dma>(target: u16, sub: Plan<RmIoq, ()>) -> Plan<Resize<A>, u16> {
    match sub.next {
        Next::Fetch(f, removal) => Plan::wait(sub.stores, f, Resize::Shrink { target, removal }),
        Next::Done(Err(e)) => Plan::done(sub.stores, Err(e)),
        Next::Done(Ok(_)) => Plan::wait(sub.stores, Fetch::Pause, Resize::Less { target }),
    }
}

/// What `set_ioq_cnt_next` owes when the resizing has got as far as `st`
/// and is handed `reply`.
pub open spec fn resized<A: Dma>(
    before: CtrlModel,
    provider: A,
    st: Resize<A>,
    reply: Reply,
    s: Step<Resize<A>, u16>,
    after: CtrlModel,
) -> bool {
    match st {
        Resize::Ask { ticket, count } => {
            let fed = before.fed(ticket, reply);
            let acks = before.fed_stores(ticket, reply);
            &&& after == fed
            &&& s@ == match before.fed_outcome(ticket, reply) {
                None => Plan::wait(acks, before.watch(ticket.qid), st),
                Some(Err(e)) => Plan::done(acks, Err(e)),
                Some(Ok(cqe)) => decided(fed, count, cqe, acks),
            }
        },
        Resize::More { target, left } => if left == 0 {
            after == before && s@ == Plan::<Resize<A>, u16>::done(Seq::empty(), Ok(target))
        } else {
            exists|sub: Step<NewIoq<A>, ()>| #[trigger]
                new_ioq_begun(before, provider, own_depth(before), sub, after) && s@
                    == grow_lifted(target, left, sub@)
        },
        Resize::Grow { target, left, job } => exists|sub: Step<NewIoq<A>, ()>| #[trigger]
            new_ioq_went_on(before, job, reply, sub, after) && s@ == grow_lifted(
                target,
                left,
                sub@,
            ),
        Resize::Less { target } => if none_above(before, target) {
            after == before && s@ == Plan::<Resize<A>, u16>::done(Seq::empty(), Ok(target))
        } else {
            exists|qid: u16| #[trigger]
                is_first_above(before, target, qid) && s@ == shrink_lifted::<A>(
                    target,
                    rm_ioq_begun(before, qid).1,
                ) && after == rm_ioq_begun(before, qid).0
        },
        Resize::Shrink { target, removal } => {
            &&& after == rm_ioq_step(before, removal, reply).0
            &&& s@ == shrink_lifted::<A>(target, rm_ioq_step(before, removal, reply).1)
        },
    }
}

/// How `set_ioq_cnt` begins: nothing to do for a count of 0; otherwise the
/// request for that many queues of each kind is submitted.
pub open spec fn resize_begun<A: Dma>(
    before: CtrlModel,
    count: u16,
    s: Step<Resize<A>, u16>,
    after: CtrlModel,
) -> bool {
    if count == 0 {
        after == before && s@ == Plan::<Resize<A>, u16>::done(Seq::empty(), Ok(0))
    } else if before.admin is None {
        after == before && s@ == Plan::<Resize<A>, u16>::done(
            Seq::empty(),
            Err(NVMeError::InvQp),
        )
    } else {
        after == before.posted(0) && s@ == Plan::<Resize<A>, u16>::wait(
            before.submission(0, count_cmd(count)),
            before.watch(0),
            Resize::Ask { ticket: before.ticket(0), count },
        )
    }
}

/// Whether a resizing towards more queues is on course in the controller
/// `c`: the queues that are there and those still to be created make up the
/// number aimed for.
pub open spec fn on_course<A: Dma>(st: Resize<A>, c: CtrlModel) -> bool {
    match st {
        Resize::More { target, left } => c.io.len() + left == target,
        Resize::Grow { target, left, job } => left >= 1 && c.io.len() + left == target
            && !c.knows(job.queue@.qid),
        _ => true,
    }
}

/// Looking at a reply never changes the number of I/O queues.
pub proof fn lemma_fed_count(c: CtrlModel, t: Ticket, reply: Reply)
    requires
        c.wf(),
    ensures
        c.fed(t, reply).io.len() == c.io.len(),
        c.fed(t, reply).mqe == c.mqe,
        forall|qid: u16| c.fed(t, reply).knows(qid) == c.knows(qid),
{
    crate::ctrl::lemma_fed_known(c, t, reply);
    match reply {
        Reply::Cqe(cqe) => {
            if c.knows(t.qid) && t.qid != 0 {
                let p = c.place(t.qid);
                assert(0 <= p < c.io.len() && c.io[p].qid == t.qid);
            }
        },
        _ => {},
    }
}

/// The request decides what the resizing aims for: the smaller of the
/// number asked for and the number granted. Where that is the number of
/// queues there are, the resizing ends with it; where it is more, the
/// resizing sets out to create the difference; where it is less, it sets out
/// to remove the queues above it.
pub proof fn lemma_decided<A: Dma>(c: CtrlModel, count: u16, cqe: Cqe, acks: Seq<Store>)
    requires
        c.io.len() <= 0xFFFF,
    ensures
        target_of(count, cqe) <= count,
        target_of(count, cqe) <= granted(cqe.dw0).0,
        target_of(count, cqe) == count || target_of(count, cqe) == granted(cqe.dw0).0,
        match decided::<A>(c, count, cqe, acks).next {
            Next::Done(r) => r == Ok::<u16, NVMeError>(target_of(count, cqe)) && c.io.len()
                == target_of(count, cqe),
            Next::Fetch(_, st) => on_course(st, c) && match st {
                Resize::More { target, left } => target == target_of(count, cqe) && left >= 1,
                Resize::Less { target } => target == target_of(count, cqe) && c.io.len() > target,
                _ => false,
            },
        },
{
}

/// A resizing towards more queues stays on course with every step, and
/// where it ends with success it yields the number aimed for, which is then
/// the number of I/O queues: no more were created and no fewer.
pub proof fn lemma_grown<A: Dma>(
    before: CtrlModel,
    provider: A,
    st: Resize<A>,
    reply: Reply,
    s: Step<Resize<A>, u16>,
    after: CtrlModel,
)
    requires
        before.wf(),
        st.wf(),
        on_course(st, before),
        st is More || st is Grow,
        resized(before, provider, st, reply, s, after),
    ensures
        s.next matches Next::Fetch(_, then) ==> (then is More || then is Grow) && on_course(
            then,
            after,
        ),
        s.next matches Next::Done(Ok(n)) ==> after.io.len() == n && (st matches Resize::More {
            target,
            ..
        } ==> n == target) && (st matches Resize::Grow { target, .. } ==> n == target),
{
    match st {
        Resize::More { target, left } => {
            if left != 0 {
                let sub = choose|sub: Step<NewIoq<A>, ()>| #[trigger]
                    new_ioq_begun(before, provider, own_depth(before), sub, after) && s@
                        == grow_lifted(target, left, sub@);
                let size = own_depth(before);
                if !(size == 0 || before.is_full()) {
                    if !(after == before && sub.next == Next::<NewIoq<A>, ()>::Done(
                        Err(NVMeError::OoRam),
                    )) {
                        let q = choose|q: QueueModel| #[trigger]
                            fresh_pair(before, provider, size, q) && pair_offered(
                                before,
                                q,
                                q.clearing(),
                                sub,
                                after,
                            );
                        if before.admin is Some {
                            crate::queue::lemma_doorbell_steps(before.queue(0));
                            crate::ctrl::lemma_with_queue(before, 0, before.queue(0).submitted());
                            assert(after.io == before.io);
                        }
                    }
                }
            }
        },
        Resize::Grow { target, left, job } => {
            let sub = choose|sub: Step<NewIoq<A>, ()>| #[trigger]
                new_ioq_went_on(before, job, reply, sub, after) && s@ == grow_lifted(
                    target,
                    left,
                    sub@,
                );
            let fed = before.fed(job.ticket, reply);
            lemma_fed_count(before, job.ticket, reply);
            match before.fed_outcome(job.ticket, reply) {
                None => {},
                Some(Err(e)) => {},
                Some(Ok(_)) => {
                    if !job.bound {
                        assert(fed.knows(0));
                        crate::queue::lemma_doorbell_steps(fed.queue(0));
                        crate::ctrl::lemma_with_queue(fed, 0, fed.queue(0).submitted());
                        assert(after.io == fed.io);
                    } else {
                        assert(!fed.knows(job.queue@.qid));
                        crate::ctrl::lemma_adopted(fed, job.queue@);
                        assert(after.io.len() == fed.io.len() + 1);
                    }
                },
            }
        },
        _ => {},
    }
}

/// Turns a step of the creation of a queue into a step of the resizing.
fn grow_lift<A: Dma>(target: u16, left: u16, sub: Step<NewIoq<A>, ()>) -> (s: Step<Resize<A>, u16>)
    requires
        sub.next matches Next::Fetch(_, job) ==> job.wf(),
    ensures
        s@ == grow_lifted(target, left, sub@),
        s.next matches Next::Fetch(_, st) ==> st.wf(),
{
    let Step { stores, next } = sub;
    match next {
        Next::Fetch(f, job) => Step::wait(stores, f, Resize::Grow { target, left, job }),
        Next::Done(Err(e)) => Step::done(stores, Err(e)),
        Next::Done(Ok(_)) => {
            if left <= 1 {
                Step::done(stores, Ok(target))
            } else {
                Step::wait(stores, Fetch::Pause, Resize::More { target, left: left - 1 })
            }
        },
    }
}

/// Turns a step of the removal of a queue into a step of the resizing.
fn shrink_lift<A: Dma>(target: u16, sub: Step<RmIoq, ()>) -> (s: Step<Resize<A>, u16>)
    ensures
        s@ == shrink_lifted::<A>(target, sub@),
        s.next matches Next::Fetch(_, st) ==> st.wf(),
{
    let Step { stores, next } = sub;
    match next {
        Next::Fetch(f, removal) => Step::wait(stores, f, Resize::Shrink { target, removal }),
        Next::Done(Err(e)) => Step::done(stores, Err(e)),
        Next::Done(Ok(_)) => Step::wait(stores, Fetch::Pause, Resize::Less { target }),
    }
}

impl<A: Dma> Ctrl<A> {
    /// Begins the creation of an I/O queue of `size` entries; goes on with
    /// `new_ioq_next`.
    pub fn new_ioq(&mut self, size: usize) -> (s: Step<NewIoq<A>, ()>)
        requires
            old(self)@.wf(),
            size <= RING_MAX,
        ensures
            final(self)@.wf(),
            final(self).provider() == old(self).provider(),
            new_ioq_begun(old(self)@, old(self).provider(), size, s, final(self)@),
            s.next matches Next::Fetch(_, job) ==> job.wf(),
    {
        let qid = match self.lowest_unused() {
            Some(qid) => qid,
            None => {
                return Step::done(Vec::new(), Err(NVMeError::FullQp));
            },
        };
        if size == 0 {
            return Step::done(Vec::new(), Err(NVMeError::FullQp));
        }
        proof {
            assert(!old(self)@.is_full()) by {
                if old(self)@.is_full() {
                    assert(old(self)@.knows(qid));
                }
            }
        }
        let mut stores: Vec<Store> = Vec::new();
        let queue = match Queue::new(qid, size, self.dma(), &mut stores) {
            Ok(q) => q,
            Err(e) => {
                assert(Seq::<Store>::empty() + stores@ =~= stores@);
                return Step::done(stores, Err(e));
            },
        };
        let ghost q = queue@;
        assert(stores@ =~= q.clearing());
        let s = self.new_ioq_with(queue, stores);
        assert(fresh_pair(old(self)@, old(self).provider(), size, q) && pair_offered(
            old(self)@,
            q,
            q.clearing(),
            s,
            self@,
        ));
        s
    }

    /// Begins the creation of an I/O queue out of the queue pair `queue`,
    /// which is not yet known to the controller, after the stores `pre`;
    /// goes on with `new_ioq_next`.
    pub fn new_ioq_with(&mut self, queue: Queue<A>, pre: Vec<Store>) -> (s: Step<NewIoq<A>, ()>)
        requires
            old(self)@.wf(),
            queue@.wf(),
            queue@.qid >= 1,
        ensures
            final(self)@.wf(),
            final(self).provider() == old(self).provider(),
            pair_offered(old(self)@, queue@, pre@, s, final(self)@),
            s.next matches Next::Fetch(_, job) ==> job.wf(),
    {
        let mut stores = pre;
        let cmd = Cmd::cq_create(queue.qid(), queue.size() as u16, queue.cq_phys());
        match self.post_admin(&cmd, &mut stores) {
            Err(e) => {
                queue.release(&mut stores);
                Step::done(stores, Err(e))
            },
            Ok(ticket) => {
                proof {
                    crate::ctrl::lemma_with_queue(old(self)@, 0, old(self)@.queue(0).submitted());
                    crate::queue::lemma_doorbell_steps(old(self)@.queue(0));
                }
                let f = self.watch(0);
                Step::wait(stores, f, NewIoq { queue, ticket, bound: false })
            },
        }
    }

    /// Goes on with the creation of an I/O queue.
    pub fn new_ioq_next(&mut self, job: NewIoq<A>, reply: Reply) -> (s: Step<NewIoq<A>, ()>)
        requires
            old(self)@.wf(),
            job.wf(),
        ensures
            final(self)@.wf(),
            final(self).provider() == old(self).provider(),
            new_ioq_went_on(old(self)@, job, reply, s, final(self)@),
            s.next matches Next::Fetch(_, then) ==> then.wf(),
    {
        let mut stores: Vec<Store> = Vec::new();
        let out = self.feed(job.ticket, &reply, &mut stores);
        assert(stores@ =~= old(self)@.fed_stores(job.ticket, reply));
        let ghost fed = self@;
        match out {
            None => {
                proof {
                    crate::ctrl::lemma_fed_nothing(old(self)@, job.ticket, reply);
                }
                let f = self.watch(0);
                Step::wait(stores, f, job)
            },
            Some(Err(e)) => {
                job.queue.release(&mut stores);
                Step::done(stores, Err(e))
            },
            Some(Ok(_)) => {
                if !job.bound {
                    let size = job.queue.size();
                    let qid = job.queue.qid();
                    let cmd = Cmd::sq_create(qid, size as u16, qid, job.queue.sq_phys());
                    match self.post_admin(&cmd, &mut stores) {
                        Err(e) => {
                            proof {
                                crate::ctrl::lemma_fed_known(old(self)@, job.ticket, reply);
                            }
                            job.queue.release(&mut stores);
                            Step::done(stores, Err(e))
                        },
                        Ok(ticket) => {
                            proof {
                                crate::ctrl::lemma_with_queue(fed, 0, fed.queue(0).submitted());
                                crate::queue::lemma_doorbell_steps(fed.queue(0));
                            }
                            let f = self.watch(0);
                            Step::wait(stores, f, NewIoq { queue: job.queue, ticket, bound: true })
                        },
                    }
                } else {
                    match self.find(job.queue.qid()) {
                        Some(_) => {
                            job.queue.release(&mut stores);
                            Step::done(stores, Err(NVMeError::FullQp))
                        },
                        None => {
                            self.adopt(job.queue);
                            Step::done(stores, Ok(()))
                        },
                    }
                }
            },
        }
    }

    /// Submits `cmd` on the admin queue as the next command of the removal
    /// of queue `qid`, after the stores `stores`.
    fn rm_post(&mut self, qid: u16, cmd: &Cmd, stores: Vec<Store>, second: bool) -> (s: Step<
        RmIoq,
        (),
    >)
        requires
            old(self)@.wf(),
        ensures
            final(self)@.wf(),
            final(self).provider() == old(self).provider(),
            old(self)@.admin is None ==> final(self)@ == old(self)@ && s@ == Plan::<
                RmIoq,
                (),
            >::done(stores@, Err(NVMeError::InvQp)),
            old(self)@.admin is Some ==> final(self)@ == old(self)@.posted(0) && s@ == Plan::<
                RmIoq,
                (),
            >::wait(
                stores@ + old(self)@.submission(0, *cmd),
                old(self)@.watch(0),
                (RmIoq {
                    qid,
                    stage: if second {
                        RmStage::CqDel(old(self)@.ticket(0))
                    } else {
                        RmStage::SqDel(old(self)@.ticket(0))
                    },
                }),
            ),
    {
        let mut stores = stores;
        match self.post_admin(cmd, &mut stores) {
            Err(e) => Step::done(stores, Err(e)),
            Ok(t) => {
                proof {
                    crate::ctrl::lemma_with_queue(old(self)@, 0, old(self)@.queue(0).submitted());
                    crate::queue::lemma_doorbell_steps(old(self)@.queue(0));
                }
                let f = self.watch(0);
                let stage = if second {
                    RmStage::CqDel(t)
                } else {
                    RmStage::SqDel(t)
                };
                Step::wait(stores, f, RmIoq { qid, stage })
            },
        }
    }

    /// Begins the removal of I/O queue `qid`; goes on with `rm_ioq_next`.
    pub fn rm_ioq(&mut self, qid: u16) -> (s: Step<RmIoq, ()>)
        requires
            old(self)@.wf(),
        ensures
            final(self)@.wf(),
            final(self).provider() == old(self).provider(),
            (final(self)@, s@) == rm_ioq_begun(old(self)@, qid),
    {
        if qid == 0 {
            return Step::done(Vec::new(), Err(NVMeError::InvQp));
        }
        if self.find(qid).is_none() {
            return Step::done(Vec::new(), Err(NVMeError::InvQp));
        }
        return self.rm_ioq_next(RmIoq { qid, stage: RmStage::Drain }, Reply::Go);
    }

    /// Goes on with the removal of an I/O queue.
    pub fn rm_ioq_next(&mut self, job: RmIoq, reply: Reply) -> (s: Step<RmIoq, ()>)
        requires
            old(self)@.wf(),
        ensures
            final(self)@.wf(),
            final(self).provider() == old(self).provider(),
            (final(self)@, s@) == rm_ioq_step(old(self)@, job, reply),
    {
        match job.stage {
            RmStage::Drain => {
                if job.qid != 0 && !self.queue_idle(job.qid) {
                    return Step::wait(Vec::new(), Fetch::Pause, job);
                }
                let cmd = Cmd::sq_del(job.qid);
                let s = self.rm_post(job.qid, &cmd, Vec::new(), false);
                assert(Seq::<Store>::empty() + old(self)@.submission(0, sq_del_cmd(job.qid))
                    =~= old(self)@.submission(0, sq_del_cmd(job.qid)));
                s
            },
            RmStage::SqDel(t) => {
                let mut stores: Vec<Store> = Vec::new();
                let out = self.feed(t, &reply, &mut stores);
                assert(stores@ =~= old(self)@.fed_stores(t, reply));
                proof {
                    crate::ctrl::lemma_fed_known(old(self)@, t, reply);
                }
                match out {
                    None => {
                        proof {
                            crate::ctrl::lemma_fed_nothing(old(self)@, t, reply);
                        }
                        let f = self.watch(t.qid);
                        Step::wait(stores, f, job)
                    },
                    Some(Err(e)) => Step::done(stores, Err(e)),
                    Some(Ok(_)) => {
                        let cmd = Cmd::cq_del(job.qid);
                        self.rm_post(job.qid, &cmd, stores, true)
                    },
                }
            },
            RmStage::CqDel(t) => {
                let mut stores: Vec<Store> = Vec::new();
                let out = self.feed(t, &reply, &mut stores);
                assert(stores@ =~= old(self)@.fed_stores(t, reply));
                proof {
                    crate::ctrl::lemma_fed_known(old(self)@, t, reply);
                }
                match out {
                    None => {
                        proof {
                            crate::ctrl::lemma_fed_nothing(old(self)@, t, reply);
                        }
                        let f = self.watch(t.qid);
                        Step::wait(stores, f, job)
                    },
                    Some(Err(e)) => Step::done(stores, Err(e)),
                    Some(Ok(_)) => {
                        match self.evict(job.qid) {
                            Some(q) => {
                                q.release(&mut stores);
                            },
                            None => {},
                        }
                        Step::done(stores, Ok(()))
                    },
                }
            },
        }
    }

    /// The entries of an I/O queue that the driver creates of its own
    /// accord.
    pub fn own_depth(&self) -> (r: usize)
        ensures
            r == own_depth(self@),
            r <= IOQ_DEPTH_MAX,
    {
        let mqe = self.data().mqe as usize;
        if mqe < IOQ_DEPTH_MAX {
            mqe
        } else {
            IOQ_DEPTH_MAX
        }
    }

    /// The lowest identifier above `target` that an I/O queue carries, if
    /// there is one.
    pub fn first_above(&self, target: u16) -> (r: Option<u16>)
        requires
            self@.wf(),
        ensures
            r matches Some(qid) ==> is_first_above(self@, target, qid),
            r is None ==> none_above(self@, target),
    {
        let qids = self.qids();
        let mut i: usize = 0;
        while i < qids.len()
            invariant
                i <= qids@.len(),
                qids@ == self@.qids(),
                self@.wf(),
                forall|k: int| 0 <= k < i ==> (#[trigger] self@.io[k]).qid <= target,
            decreases qids@.len() - i,
        {
            let qid = qids[i];
            assert(qid == self@.io[i as int].qid);
            if qid > target {
                proof {
                    crate::ctrl::lemma_place(self@, i as int);
                    assert forall|other: u16| other > target && self@.knows(other) implies qid
                        <= other by {
                        if other != 0 {
                            let k = self@.place(other);
                            assert(0 <= k < self@.io.len() && self@.io[k].qid == other);
                            if k < i {
                                assert(self@.io[k].qid <= target);
                            } else if k > i {
                                assert(self@.io[i as int].qid < self@.io[k].qid);
                            }
                        }
                    }
                }
                return Some(qid);
            }
            i += 1;
        }
        proof {
            assert forall|other: u16| other != 0 && self@.knows(other) implies other <= target by {
                let k = self@.place(other);
                assert(0 <= k < self@.io.len() && self@.io[k].qid == other);
            }
        }
        None
    }

    /// Begins bringing the number of I/O queues to `count`, as far as the
    /// controller grants it; goes on with `set_ioq_cnt_next`. The operation
    /// yields the number of queues that it aimed for.
    pub fn set_ioq_cnt(&mut self, count: u16) -> (s: Step<Resize<A>, u16>)
        requires
            old(self)@.wf(),
        ensures
            final(self)@.wf(),
            final(self).provider() == old(self).provider(),
            resize_begun(old(self)@, count, s, final(self)@),
            s.next matches Next::Fetch(_, st) ==> st.wf(),
    {
        if count == 0 {
            return Step::done(Vec::new(), Ok(0));
        }
        let value = crate::bits::join16(count - 1, count - 1);
        let cmd = Cmd::set_feat(FT_NQ, value);
        let mut stores: Vec<Store> = Vec::new();
        match self.post_admin(&cmd, &mut stores) {
            Err(e) => Step::done(stores, Err(e)),
            Ok(ticket) => {
                proof {
                    crate::ctrl::lemma_with_queue(old(self)@, 0, old(self)@.queue(0).submitted());
                    crate::queue::lemma_doorbell_steps(old(self)@.queue(0));
                    assert(stores@ =~= old(self)@.submission(0, count_cmd(count)));
                }
                let f = self.watch(0);
                Step::wait(stores, f, Resize::Ask { ticket, count })
            },
        }
    }

    /// Goes on with bringing the number of I/O queues to a count.
    pub fn set_ioq_cnt_next(&mut self, st: Resize<A>, reply: Reply) -> (s: Step<Resize<A>, u16>)
        requires
            old(self)@.wf(),
            st.wf(),
        ensures
            final(self)@.wf(),
            final(self).provider() == old(self).provider(),
            resized(old(self)@, old(self).provider(), st, reply, s, final(self)@),
            s.next matches Next::Fetch(_, then) ==> then.wf(),
    {
        match st {
            Resize::Ask { ticket, count } => {
                let mut stores: Vec<Store> = Vec::new();
                let out = self.feed(ticket, &reply, &mut stores);
                assert(stores@ =~= old(self)@.fed_stores(ticket, reply));
                match out {
                    None => {
                        proof {
                            crate::ctrl::lemma_fed_nothing(old(self)@, ticket, reply);
                        }
                        let f = self.watch(ticket.qid);
                        Step::wait(stores, f, Resize::Ask { ticket, count })
                    },
                    Some(Err(e)) => Step::done(stores, Err(e)),
                    Some(Ok(cqe)) => {
                        let (allocated, _) = counts_granted(cqe.dw0);
                        let target = if allocated < count {
                            allocated
                        } else {
                            count
                        };
                        let cur = self.ioq_cnt();
                        if target as usize > cur {
                            Step::wait(
                                stores,
                                Fetch::Pause,
                                Resize::More { target, left: (target as usize - cur) as u16 },
                            )
                        } else if (target as usize) < cur {
                            Step::wait(stores, Fetch::Pause, Resize::Less { target })
                        } else {
                            Step::done(stores, Ok(target))
                        }
                    },
                }
            },
            Resize::More { target, left } => {
                if left == 0 {
                    return Step::done(Vec::new(), Ok(target));
                }
                let size = self.own_depth();
                let sub = self.new_ioq(size);
                let ghost taken = sub;
                let s = grow_lift(target, left, sub);
                assert(new_ioq_begun(
                    old(self)@,
                    old(self).provider(),
                    own_depth(old(self)@),
                    taken,
                    self@,
                ) && s@ == grow_lifted(target, left, taken@));
                s
            },
            Resize::Grow { target, left, job } => {
                let sub = self.new_ioq_next(job, reply);
                let ghost taken = sub;
                let s = grow_lift(target, left, sub);
                assert(new_ioq_went_on(old(self)@, job, reply, taken, self@) && s@ == grow_lifted(
                    target,
                    left,
                    taken@,
                ));
                s
            },
            Resize::Less { target } => {
                match self.first_above(target) {
                    None => Step::done(Vec::new(), Ok(target)),
                    Some(qid) => {
                        proof {
                            assert(!none_above(old(self)@, target)) by {
                                if none_above(old(self)@, target) {
                                    assert(qid <= target);
                                }
                            }
                        }
                        let sub = self.rm_ioq(qid);
                        let s = shrink_lift(target, sub);
                        assert(is_first_above(old(self)@, target, qid) && s@ == shrink_lifted::<A>(
                            target,
                            rm_ioq_begun(old(self)@, qid).1,
                        ) && self@ == rm_ioq_begun(old(self)@, qid).0);
                        s
                    },
                }
            },
            Resize::Shrink { target, removal } => {
                let sub = self.rm_ioq_next(removal, reply);
                shrink_lift(target, sub)
            },
        }
    }
}

} // verus!
