//! Bring-up: from a controller in whatever state the firmware left it to
//! one that is enabled, identified and has its first I/O queue.

use vstd::prelude::*;
use vstd::arithmetic::power2::pow2;
use crate::bits::{field32, field64, pair16};
use crate::bus::{Fetch, Next, Plan, Reply, Step, Store};
use crate::cmd::Cmd;
use crate::ctrl::{Ctrl, CtrlData, CtrlModel, Ticket};
use crate::err::NVMeError;
use crate::fleet::{new_ioq_begun, new_ioq_went_on, own_depth, NewIoq};
use crate::id::{scaled, text, CtrlId, CTRL_ID_LEN};
use crate::queue::{given_up, CqModel, Queue, QueueModel, SqModel};
use crate::ram::Dma;
use crate::reg::{
    can_address_doorbells, doorbells_fit, CapReg, CstsReg, ACQ, AQA, ASQ, CAP, CC, CC_EN, CSTS,
    CSTS_RDY,
};

verus! {

/// The most entries that the admin queue is given, which is the most that
/// AQA can describe.
pub const ADMIN_DEPTH_MAX: usize = 4096;

/// CC as bring-up writes it: 16-byte completion entries (IOCQES = 4),
/// 64-byte submission entries (IOSQES = 6), round robin arbitration, 4 KiB
/// pages, the NVM command set, and the controller enabled.
pub const CC_BRINGUP: u32 = 0x0046_0001;

/// `CC_BRINGUP` holds 4 in IOCQES, 6 in IOSQES, has EN set and nothing
/// else.
pub proof fn lemma_cc_bringup()
    ensures
        field32(CC_BRINGUP, 20, 0xF) == 4,
        field32(CC_BRINGUP, 16, 0xF) == 6,
        CC_BRINGUP & CC_EN == CC_EN,
        CC_BRINGUP == (4u32 << 20) | (6u32 << 16) | 1u32,
{
    assert((0x0046_0001u32 >> 20) & 0xF == 4 && (0x0046_0001u32 >> 16) & 0xF == 6 && 0x0046_0001u32
        & 1 == 1 && 0x0046_0001u32 == (4u32 << 20) | (6u32 << 16) | 1u32) by (bit_vector);
}

/// How far bring-up has got.
pub enum Init<A: Dma> {
    /// Waiting for the value of CAP.
    Cap,
    /// Waiting for the value of CC.
    Cc { cap: u64 },
    /// The controller was found enabled and has been disabled; waiting for
    /// it to report not ready.
    Disabling { cap: u64 },
    /// The admin queue has been made known and the controller enabled;
    /// waiting for it to report ready.
    Enabling { cap: u64, admin: Queue<A> },
    /// Identify Controller is in flight, into the buffer at `buf`.
    Identify { cap: u64, ticket: Ticket, buf: usize },
    /// Waiting for the identify data in the buffer at `buf`.
    Data { cap: u64, buf: usize },
    /// The first I/O queue is being created.
    Queue(NewIoq<A>),
}

impl<A: Dma> Init<A> {
    /// The queues that the state holds are well formed, the admin queue
    /// under identifier 0.
    pub open spec fn wf(self) -> bool {
        match self {
            Init::Enabling { admin, .. } => admin@.wf() && admin@.qid == 0,
            Init::Queue(job) => job.wf(),
            _ => true,
        }
    }
}

/// The entries of the admin queue: as many as CAP.MQES allows, which counts
/// from 0, and no more than 4096.
pub open spec fn admin_depth(cap: u64) -> usize {
    if (cap & 0xFFFF) + 1 < ADMIN_DEPTH_MAX {
        ((cap & 0xFFFF) + 1) as usize
    } else {
        ADMIN_DEPTH_MAX
    }
}

/// The most entries of a queue that the controller data records: as many
/// as CAP.MQES allows, as far as 16 bits hold the number.
pub open spec fn entries_max(cap: u64) -> u16 {
    if (cap & 0xFFFF) + 1 < 0xFFFF {
        ((cap & 0xFFFF) + 1) as u16
    } else {
        0xFFFF
    }
}

/// The smallest memory page of the controller in bytes: 4 KiB shifted by
/// CAP.MPSMIN.
pub open spec fn min_page(cap: u64) -> usize {
    (4096u64 << field64(cap, 48, 0xF)) as usize
}

/// The largest transfer in bytes: the smallest page shifted by MDTS, and no
/// limit where MDTS is 0.
pub open spec fn max_transfer(min_pg: usize, mdts: u8) -> usize {
    if mdts == 0 {
        usize::MAX
    } else {
        scaled(min_pg, mdts as nat)
    }
}

/// The figures of bring-up in plain arithmetic. The admin queue has one
/// entry more than CAP.MQES says, up to 4096, and the controller data records
/// that number as far as 16 bits hold it. The smallest page is 4 KiB times
/// two to the power of CAP.MPSMIN. The largest transfer is the smallest page
/// times two to the power of MDTS, where a `usize` holds that, and has no
/// limit where MDTS is 0.
pub proof fn lemma_bring_up_figures(cap: u64, mdts: u8)
    ensures
        1 <= admin_depth(cap) <= ADMIN_DEPTH_MAX,
        (cap & 0xFFFF) + 1 <= ADMIN_DEPTH_MAX ==> admin_depth(cap) == (cap & 0xFFFF) + 1,
        (cap & 0xFFFF) + 1 <= 0xFFFF ==> entries_max(cap) == (cap & 0xFFFF) + 1,
        field64(cap, 48, 0xF) <= 15,
        min_page(cap) == 4096 * pow2(field64(cap, 48, 0xF) as nat),
        mdts == 0 ==> max_transfer(min_page(cap), mdts) == usize::MAX,
        mdts != 0 && min_page(cap) * pow2(mdts as nat) <= usize::MAX ==> max_transfer(
            min_page(cap),
            mdts,
        ) == min_page(cap) * pow2(mdts as nat),
{
    crate::bits::lemma_and_bound64(cap, 0xFFFF);
    crate::bits::lemma_and_bound64(cap >> 48, 0xF);
    let shift = field64(cap, 48, 0xF);
    vstd::arithmetic::power2::lemma2_to64();
    if shift < 15 {
        vstd::arithmetic::power2::lemma_pow2_strictly_increases(shift as nat, 15);
    }
    assert(4096 * pow2(shift as nat) <= 4096 * 32768) by (nonlinear_arith)
        requires
            pow2(shift as nat) <= 32768,
    ;
    vstd::bits::lemma_u64_shl_is_mul(4096, shift);
}

/// The stores that make the admin queue `q` known to the controller and
/// enable it: the physical addresses of its rings in ASQ and ACQ, their
/// sizes less one in AQA, and then CC.
pub open spec fn admin_regs(q: QueueModel) -> Seq<Store> {
    seq![
        Store::Reg64 { off: ASQ, quad: q.sq.phys },
        Store::Reg64 { off: ACQ, quad: q.cq.phys },
        Store::Reg32 { off: AQA, val: pair16((q.sq.size - 1) as u16, (q.sq.size - 1) as u16) },
        Store::Reg32 { off: CC, val: CC_BRINGUP },
    ]
}

/// The stores of enabling with the admin queue `q`: both rings zeroed, and
/// then the registers.
pub open spec fn enable_stores(q: QueueModel) -> Seq<Store> {
    q.clearing() + admin_regs(q)
}

/// Identify Controller into the page at physical address `prp1`.
pub open spec fn id_ctrl_cmd(prp1: u64) -> Cmd {
    Cmd { opc: 0x06, nsid: 0, prp1, prp2: 0, cdw10: 1, cdw11: 0, cdw12: 0 }
}

/// The controller once it has learnt from CAP and from the identify data
/// `b`: serial number, model number and firmware revision as text, the
/// largest transfer, the most queue entries, and the smallest page.
pub open spec fn learnt(c: CtrlModel, cap: u64, b: Seq<u8>) -> CtrlModel {
    CtrlModel {
        serial: text(b.subrange(4, 24)),
        model: text(b.subrange(24, 64)),
        firm: text(b.subrange(64, 72)),
        mts: max_transfer(min_page(cap), b[77]),
        mqe: entries_max(cap),
        min_pg: min_page(cap),
        ..c
    }
}

/// A step of the creation of the first I/O queue, as a step of bring-up
/// that performs the stores `pre` first.
pub open spec fn ioq_lifted<A: Dma>(pre: Seq<Store>, sub: Plan<NewIoq<A>, ()>) -> Plan<
    Init<A>,
    (),
> {
    match sub.next {
        Next::Fetch(f, job) => Plan::wait(pre + sub.stores, f, Init::Queue(job)),
        Next::Done(r) => Plan::done(pre + sub.stores, r),
    }
}

/// The stores that hand the memory of a queue pair back to the provider,
/// where there is one.
pub open spec fn released(q: Option<QueueModel>) -> Seq<Store> {
    match q {
        Some(q) => q.releasing(),
        None => Seq::empty(),
    }
}

/// What enabling owes: no memory for the admin queue ends bring-up, and
/// where the first ring was there and the second was not, the memory of the
/// first goes back; otherwise a fresh admin queue of `admin_depth(cap)`
/// entries is zeroed and made known, the controller is enabled, and CSTS is
/// read.
pub open spec fn enabling<A: Dma>(provider: A, cap: u64, s: Step<Init<A>, ()>) -> bool {
    ||| {
        &&& s.next == Next::<Init<A>, ()>::Done(Err(NVMeError::OoRam))
        &&& s.stores@ == Seq::<Store>::empty() || exists|addr: usize| #[trigger]
            given_up(Seq::empty(), s.stores@, addr, admin_depth(cap))
    }
    ||| {
        &&& s.next matches Next::Fetch(f, Init::Enabling { cap: c, admin })
        &&& f == (Fetch::Reg32 { off: CSTS })
        &&& c == cap
        &&& admin@.wf()
        &&& admin@.qid == 0
        &&& admin@.sq == SqModel::fresh(
            0,
            admin_depth(cap),
            admin@.sq.addr,
            provider.phys(admin@.sq.addr) as u64,
        )
        &&& admin@.cq == CqModel::fresh(
            0,
            admin_depth(cap),
            admin@.cq.addr,
            provider.phys(admin@.cq.addr) as u64,
        )
        &&& s.stores@ == enable_stores(admin@)
    }
}

/// What identifying owes in a controller `before` that takes `admin` as its
/// admin queue, given the address `buf` that the provider returned for the
/// identify buffer: the memory of an admin queue that was there before goes
/// back to the provider; no memory for the buffer ends bring-up; otherwise
/// the buffer is zeroed and Identify Controller is submitted.
pub open spec fn identifying_at<A: Dma>(
    before: CtrlModel,
    admin: QueueModel,
    provider: A,
    cap: u64,
    buf: usize,
    s: Step<Init<A>, ()>,
    after: CtrlModel,
) -> bool {
    let c = CtrlModel { admin: Some(admin), ..before };
    if buf == 0 {
        after == c && s@ == Plan::<Init<A>, ()>::done(
            released(before.admin),
            Err(NVMeError::OoRam),
        )
    } else {
        after == c.posted(0) && s@ == Plan::<Init<A>, ()>::wait(
            released(before.admin) + seq![Store::Zero { addr: buf, len: CTRL_ID_LEN }]
                + c.submission(0, id_ctrl_cmd(provider.phys(buf) as u64)),
            c.watch(0),
            Init::Identify { cap, ticket: c.ticket(0), buf },
        )
    }
}

/// What identifying owes in a controller `before` that takes `admin` as its
/// admin queue, whatever the provider returned for the identify buffer.
pub open spec fn identifying<A: Dma>(
    before: CtrlModel,
    admin: QueueModel,
    provider: A,
    cap: u64,
    s: Step<Init<A>, ()>,
    after: CtrlModel,
) -> bool {
    exists|buf: usize| #[trigger] identifying_at(before, admin, provider, cap, buf, s, after)
}

/// What `init_next` owes when bring-up has got as far as `st` and is handed
/// `reply`.
///
/// - CAP gives the doorbell stride. A stride whose doorbells a `usize`
///   offset cannot reach is a fault.
/// - A controller that is found enabled is disabled first, and CSTS is read
///   until it reports not ready.
/// - The admin queue is allocated and made known, the controller is
///   enabled, and CSTS is read until it reports ready.
/// - Identify Controller is run, and the controller data is taken from what
///   it returns. The identify buffer goes back to the provider when its
///   bytes have been read, and when the command fails.
/// - The first I/O queue is created.
/// - A reply of the wrong kind is a fault of the host.
pub open spec fn init_went_on<A: Dma>(
    before: CtrlModel,
    provider: A,
    st: Init<A>,
    reply: Reply,
    s: Step<Init<A>, ()>,
    after: CtrlModel,
) -> bool {
    let fault = after == before && s@ == Plan::<Init<A>, ()>::done(
        Seq::empty(),
        Err(NVMeError::IoError),
    );
    match st {
        Init::Cap => match reply {
            Reply::Reg64(cap) => if !doorbells_fit(field64(cap, 32, 0xF) as u8) {
                fault
            } else {
                &&& after == (CtrlModel { dstrd: field64(cap, 32, 0xF) as u8, ..before })
                &&& s@ == Plan::<Init<A>, ()>::wait(
                    Seq::empty(),
                    Fetch::Reg32 { off: CC },
                    Init::Cc { cap },
                )
            },
            _ => fault,
        },
        Init::Cc { cap } => match reply {
            Reply::Reg32(cc) => if cc & CC_EN != 0 {
                after == before && s@ == Plan::<Init<A>, ()>::wait(
                    seq![Store::Reg32 { off: CC, val: 0 }],
                    Fetch::Reg32 { off: CSTS },
                    Init::Disabling { cap },
                )
            } else {
                after == before && enabling(provider, cap, s)
            },
            _ => fault,
        },
        Init::Disabling { cap } => match reply {
            Reply::Reg32(csts) => if csts & CSTS_RDY != 0 {
                after == before && s@ == Plan::<Init<A>, ()>::wait(
                    Seq::empty(),
                    Fetch::Reg32 { off: CSTS },
                    Init::Disabling { cap },
                )
            } else {
                after == before && enabling(provider, cap, s)
            },
            _ => fault,
        },
        Init::Enabling { cap, admin } => match reply {
            Reply::Reg32(csts) => if csts & CSTS_RDY == 0 {
                after == before && s@ == Plan::<Init<A>, ()>::wait(
                    Seq::empty(),
                    Fetch::Reg32 { off: CSTS },
                    st,
                )
            } else {
                identifying(before, admin@, provider, cap, s, after)
            },
            _ => fault,
        },
        Init::Identify { cap, ticket, buf } => {
            let acks = before.fed_stores(ticket, reply);
            &&& after == before.fed(ticket, reply)
            &&& s@ == match before.fed_outcome(ticket, reply) {
                None => Plan::<Init<A>, ()>::wait(acks, before.watch(ticket.qid), st),
                Some(Err(e)) => Plan::<Init<A>, ()>::done(
                    acks + seq![Store::Free { addr: buf, len: CTRL_ID_LEN }],
                    Err(e),
                ),
                Some(Ok(_)) => Plan::<Init<A>, ()>::wait(
                    acks,
                    Fetch::Bytes { addr: buf, len: CTRL_ID_LEN },
                    Init::Data { cap, buf },
                ),
            }
        },
        Init::Data { cap, buf } => {
            let back = seq![Store::Free { addr: buf, len: CTRL_ID_LEN }];
            let short = after == before && s@ == Plan::<Init<A>, ()>::done(
                back,
                Err(NVMeError::IoError),
            );
            match reply {
                Reply::Bytes(b) => if b@.len() < CTRL_ID_LEN {
                    short
                } else {
                    exists|sub: Step<NewIoq<A>, ()>| #[trigger]
                        new_ioq_begun(
                            learnt(before, cap, b@),
                            provider,
                            own_depth(learnt(before, cap, b@)),
                            sub,
                            after,
                        ) && s@ == ioq_lifted(back, sub@)
                },
                _ => short,
            }
        },
        Init::Queue(job) => exists|sub: Step<NewIoq<A>, ()>| #[trigger]
            new_ioq_went_on(before, job, reply, sub, after) && s@ == ioq_lifted(
                Seq::empty(),
                sub@,
            ),
    }
}

/// Turns a step of the creation of the first I/O queue into a step of
/// bring-up that performs the stores `pre` first.
fn ioq_lift<A: Dma>(pre: Vec<Store>, sub: Step<NewIoq<A>, ()>) -> (s: Step<Init<A>, ()>)
    requires
        sub.next matches Next::Fetch(_, job) ==> job.wf(),
    ensures
        s@ == ioq_lifted(pre@, sub@),
        s.next matches Next::Fetch(_, st) ==> st.wf(),
{
    let Step { stores, next } = sub;
    let mut all = pre;
    let mut stores = stores;
    all.append(&mut stores);
    let stores = all;
    match next {
        Next::Fetch(f, job) => Step::wait(stores, f, Init::Queue(job)),
        Next::Done(r) => Step::done(stores, r),
    }
}

/// The smallest memory page that CAP reports.
pub fn min_page_of(cap: u64) -> (r: usize)
    ensures
        r == min_page(cap),
        4096 <= r <= 0x800_0000,
{
    let shift = CapReg::from_raw(cap).mpsmin() as u64;
    assert(4096 <= (4096u64 << shift) <= 0x800_0000) by (bit_vector)
        requires
            shift <= 15,
    ;
    (4096u64 << shift) as usize
}

impl<A: Dma> Ctrl<A> {
    /// Begins bring-up: the host reads CAP. Goes on with `init_next`.
    pub fn init(&mut self) -> (s: Step<Init<A>, ()>)
        ensures
            final(self)@ == old(self)@,
            final(self).provider() == old(self).provider(),
            s@ == Plan::<Init<A>, ()>::wait(Seq::empty(), (Fetch::Reg64 { off: CAP }), Init::Cap),
    {
        return Step::wait(Vec::new(), Fetch::Reg64 { off: CAP }, Init::Cap);
    }

    /// Asks the provider for the admin queue and hands it to `enable_with`.
    fn enable(&mut self, cap: u64) -> (s: Step<Init<A>, ()>)
        requires
            old(self)@.wf(),
        ensures
            final(self)@ == old(self)@,
            final(self).provider() == old(self).provider(),
            enabling(old(self).provider(), cap, s),
            s.next matches Next::Fetch(_, st) ==> st.wf(),
    {
        let mqes = CapReg::from_raw(cap).mqes() as usize + 1;
        let admin_size = if mqes < ADMIN_DEPTH_MAX {
            mqes
        } else {
            ADMIN_DEPTH_MAX
        };
        let mut stores: Vec<Store> = Vec::new();
        match Queue::new(0, admin_size, self.dma(), &mut stores) {
            Ok(admin) => {
                assert(stores@ =~= admin@.clearing());
                let ghost q = admin@;
                let s = Self::enable_with(cap, admin, stores);
                assert(s.stores@ == enable_stores(q));
                s
            },
            Err(e) => {
                proof {
                    if stores@ != Seq::<Store>::empty() {
                        let addr = choose|addr: usize| #[trigger]
                            given_up(Seq::empty(), stores@, addr, admin_size);
                        assert(given_up(Seq::empty(), stores@, addr, admin_depth(cap)));
                    }
                }
                Step::done(stores, Err(e))
            },
        }
    }

    /// Makes the admin queue `admin` known to the controller and enables
    /// it, after the stores `pre`: the stores of `admin_regs`, after which
    /// CSTS is read.
    pub fn enable_with(cap: u64, admin: Queue<A>, pre: Vec<Store>) -> (s: Step<Init<A>, ()>)
        requires
            admin@.wf(),
            admin@.qid == 0,
            admin@.sq.size <= ADMIN_DEPTH_MAX,
        ensures
            s.stores@ == pre@ + admin_regs(admin@),
            s.next == Next::<Init<A>, ()>::Fetch(
                (Fetch::Reg32 { off: CSTS }),
                (Init::Enabling { cap, admin }),
            ),
    {
        let mut stores = pre;
        let depth = (admin.size() - 1) as u16;
        stores.push(Store::Reg64 { off: ASQ, quad: admin.sq_phys() });
        stores.push(Store::Reg64 { off: ACQ, quad: admin.cq_phys() });
        stores.push(Store::Reg32 { off: AQA, val: crate::bits::join16(depth, depth) });
        stores.push(Store::Reg32 { off: CC, val: CC_BRINGUP });
        assert(stores@ =~= pre@ + admin_regs(admin@));
        Step::wait(stores, Fetch::Reg32 { off: CSTS }, Init::Enabling { cap, admin })
    }

    /// Asks the provider for the identify buffer and hands it to
    /// `identify_with`.
    fn identify(&mut self, cap: u64, admin: Queue<A>) -> (s: Step<Init<A>, ()>)
        requires
            old(self)@.wf(),
            admin@.wf(),
            admin@.qid == 0,
        ensures
            final(self)@.wf(),
            final(self).provider() == old(self).provider(),
            identifying(old(self)@, admin@, old(self).provider(), cap, s, final(self)@),
            s.next matches Next::Fetch(_, st) ==> st.wf(),
    {
        let buf = self.dma().allocate(CTRL_ID_LEN);
        let s = self.identify_with(cap, admin, buf);
        assert(identifying_at(old(self)@, admin@, old(self).provider(), cap, buf, s, self@));
        s
    }

    /// Installs the admin queue `admin` and submits Identify Controller
    /// into the buffer at `buf`, which the provider handed out.
    pub fn identify_with(&mut self, cap: u64, admin: Queue<A>, buf: usize) -> (s: Step<Init<A>, ()>)
        requires
            old(self)@.wf(),
            admin@.wf(),
            admin@.qid == 0,
        ensures
            final(self)@.wf(),
            final(self).provider() == old(self).provider(),
            identifying_at(old(self)@, admin@, old(self).provider(), cap, buf, s, final(self)@),
            s.next matches Next::Fetch(_, st) ==> st.wf(),
    {
        let mut stores: Vec<Store> = Vec::new();
        match self.install_admin(admin) {
            Some(was) => {
                was.release(&mut stores);
            },
            None => {},
        }
        assert(stores@ =~= released(old(self)@.admin));
        let ghost c = self@;
        if buf == 0 {
            return Step::done(stores, Err(NVMeError::OoRam));
        }
        let phys = self.dma().virt_to_phys(buf) as u64;
        let cmd = Cmd::id_ctrl(phys);
        stores.push(Store::Zero { addr: buf, len: CTRL_ID_LEN });
        match self.post_admin(&cmd, &mut stores) {
            Err(e) => Step::done(stores, Err(e)),
            Ok(ticket) => {
                proof {
                    crate::ctrl::lemma_with_queue(c, 0, c.queue(0).submitted());
                    crate::queue::lemma_doorbell_steps(c.queue(0));
                    assert(stores@ =~= released(old(self)@.admin) + seq![
                        Store::Zero { addr: buf, len: CTRL_ID_LEN },
                    ] + c.submission(0, id_ctrl_cmd(phys)));
                }
                let f = self.watch(0);
                Step::wait(stores, f, Init::Identify { cap, ticket, buf })
            },
        }
    }

    /// Takes the controller data from CAP and from the identify data `b`.
    fn take_data(&mut self, cap: u64, b: &Vec<u8>)
        requires
            old(self)@.wf(),
            b@.len() >= CTRL_ID_LEN,
        ensures
            final(self)@ == learnt(old(self)@, cap, b@),
            final(self)@.wf(),
            final(self).provider() == old(self).provider(),
    {
        let id = CtrlId::decode(b.as_slice(), 0);
        let serial = id.serial().to_owned();
        let model = id.model().to_owned();
        let firm = id.firm().to_owned();
        let min_pg = min_page_of(cap);
        let mts = match id.max_xfer(min_pg) {
            Some(v) => v,
            None => usize::MAX,
        };
        let mqes = CapReg::from_raw(cap).mqes() as u32 + 1;
        let mqe: u16 = if mqes < 0xFFFF {
            mqes as u16
        } else {
            0xFFFF
        };
        self.learn(CtrlData { serial, model, firm, mts, mqe, min_pg });
    }

    /// Goes on with bring-up.
    pub fn init_next(&mut self, st: Init<A>, reply: Reply) -> (s: Step<Init<A>, ()>)
        requires
            old(self)@.wf(),
            st.wf(),
        ensures
            final(self)@.wf(),
            final(self).provider() == old(self).provider(),
            init_went_on(old(self)@, old(self).provider(), st, reply, s, final(self)@),
            s.next matches Next::Fetch(_, then) ==> then.wf(),
    {
        match st {
            Init::Cap => match reply {
                Reply::Reg64(cap) => {
                    let dstrd = CapReg::from_raw(cap).dstrd();
                    if !can_address_doorbells(dstrd) {
                        return Step::done(Vec::new(), Err(NVMeError::IoError));
                    }
                    self.configure(dstrd);
                    Step::wait(Vec::new(), Fetch::Reg32 { off: CC }, Init::Cc { cap })
                },
                _ => Step::done(Vec::new(), Err(NVMeError::IoError)),
            },
            Init::Cc { cap } => match reply {
                Reply::Reg32(cc) => {
                    if (cc & CC_EN) != 0 {
                        let mut stores: Vec<Store> = Vec::new();
                        stores.push(Store::Reg32 { off: CC, val: 0 });
                        assert(stores@ =~= seq![Store::Reg32 { off: CC, val: 0 }]);
                        Step::wait(stores, Fetch::Reg32 { off: CSTS }, Init::Disabling { cap })
                    } else {
                        self.enable(cap)
                    }
                },
                _ => Step::done(Vec::new(), Err(NVMeError::IoError)),
            },
            Init::Disabling { cap } => match reply {
                Reply::Reg32(csts) => {
                    if CstsReg::from_raw(csts).is_ready() {
                        Step::wait(Vec::new(), Fetch::Reg32 { off: CSTS }, Init::Disabling { cap })
                    } else {
                        self.enable(cap)
                    }
                },
                _ => Step::done(Vec::new(), Err(NVMeError::IoError)),
            },
            Init::Enabling { cap, admin } => match reply {
                Reply::Reg32(csts) => {
                    if !CstsReg::from_raw(csts).is_ready() {
                        Step::wait(
                            Vec::new(),
                            Fetch::Reg32 { off: CSTS },
                            Init::Enabling { cap, admin },
                        )
                    } else {
                        self.identify(cap, admin)
                    }
                },
                _ => Step::done(Vec::new(), Err(NVMeError::IoError)),
            },
            Init::Identify { cap, ticket, buf } => {
                let mut stores: Vec<Store> = Vec::new();
                let out = self.feed(ticket, &reply, &mut stores);
                assert(stores@ =~= old(self)@.fed_stores(ticket, reply));
                match out {
                    None => {
                        proof {
                            crate::ctrl::lemma_fed_nothing(old(self)@, ticket, reply);
                        }
                        let f = self.watch(ticket.qid);
                        Step::wait(stores, f, Init::Identify { cap, ticket, buf })
                    },
                    Some(Err(e)) => {
                        stores.push(Store::Free { addr: buf, len: CTRL_ID_LEN });
                        assert(stores@ =~= old(self)@.fed_stores(ticket, reply) + seq![
                            Store::Free { addr: buf, len: CTRL_ID_LEN },
                        ]);
                        Step::done(stores, Err(e))
                    },
                    Some(Ok(_)) => Step::wait(
                        stores,
                        Fetch::Bytes { addr: buf, len: CTRL_ID_LEN },
                        Init::Data { cap, buf },
                    ),
                }
            },
            Init::Data { cap, buf } => {
                let mut back: Vec<Store> = Vec::new();
                back.push(Store::Free { addr: buf, len: CTRL_ID_LEN });
                assert(back@ =~= seq![Store::Free { addr: buf, len: CTRL_ID_LEN }]);
                match reply {
                    Reply::Bytes(b) => {
                        if b.len() < CTRL_ID_LEN {
                            return Step::done(back, Err(NVMeError::IoError));
                        }
                        self.take_data(cap, &b);
                        let ghost mid = self@;
                        let size = self.own_depth();
                        let sub = self.new_ioq(size);
                        let ghost taken = sub;
                        let ghost pre = back@;
                        let s = ioq_lift(back, sub);
                        assert(new_ioq_begun(
                            mid,
                            old(self).provider(),
                            own_depth(mid),
                            taken,
                            self@,
                        ) && s@ == ioq_lifted(pre, taken@));
                        s
                    },
                    _ => Step::done(back, Err(NVMeError::IoError)),
                }
            },
            Init::Queue(job) => {
                let sub = self.new_ioq_next(job, reply);
                let ghost taken = sub;
                let s = ioq_lift(Vec::new(), sub);
                assert(new_ioq_went_on(old(self)@, job, reply, taken, self@) && s@ == ioq_lifted(
                    Seq::empty(),
                    taken@,
                ));
                s
            },
        }
    }
}

} // verus!
