//! A namespace: what Identify Namespace says of its blocks, and the I/O
//! commands on it.

use vstd::prelude::*;
use crate::bits::{high32, low32};
use crate::bus::{Next, Plan, Reply, Step, Store};
use crate::cmd::Cmd;
use crate::ctrl::{Ctrl, CtrlModel, IoCall};
use crate::err::{NVMeError, Result};
use crate::id::{block_size, NsId};
use crate::logs::{buffered, load_begun, loaded, Load, Loaded, LoadedModel, ID_LEN};
use crate::ram::{build_prp, page_count, prp_for, Dma, Prp, PrpList};
use crate::wire::{le32, le64, wr32, wr64};

verus! {

/// Bytes of a dataset management range.
pub const RANGE_LEN: usize = 16;

/// The attribute of Dataset Management that deallocates the ranges.
pub const DSM_DEALLOCATE: u32 = 0x4;

/// The 16 bytes that the host stores for a dataset management range:
/// context attributes at offset 0, length in blocks at 4, starting block at
/// 8, each little-endian.
pub fn range_bytes(attr: u32, blocks: u32, slba: u64) -> (b: [u8; 16])
    ensures
        le32(b@, 0) == attr,
        le32(b@, 4) == blocks,
        le64(b@, 8) == slba,
{
    let mut b: [u8; 16] = [0u8; 16];
    wr32(&mut b, 0, attr);
    wr32(&mut b, 4, blocks);
    wr64(&mut b, 8, slba);
    b
}

/// A namespace of a controller.
#[derive(Clone, Copy, Debug, PartialEq, Eq)]
pub struct Ns {
    nsid: u32,
    blk_sz: usize,
    blk_cnt: u64,
}

/// A namespace as a value.
pub struct NsModel {
    pub nsid: u32,
    pub blk_sz: usize,
    pub blk_cnt: u64,
}

impl View for Ns {
    type V = NsModel;

    closed spec fn view(&self) -> NsModel {
        NsModel { nsid: self.nsid, blk_sz: self.blk_sz, blk_cnt: self.blk_cnt }
    }
}

/// The identification of a namespace, in flight.
#[derive(Clone, Copy, Debug, PartialEq, Eq)]
pub struct NsLoad {
    pub nsid: u32,
    pub load: Load,
}

/// Identify Namespace `nsid` into the page at `prp1`.
pub open spec fn id_ns_cmd(nsid: u32, prp1: u64) -> Cmd {
    Cmd { opc: 0x06, nsid, prp1, prp2: 0, cdw10: 0, cdw11: 0, cdw12: 0 }
}

/// The namespace `nsid` as the identify data `b` describes it: as many
/// blocks as NSZE says, of the size that the LBA format in use gives.
pub open spec fn identified(nsid: u32, b: Seq<u8>) -> NsModel {
    NsModel {
        nsid,
        blk_sz: block_size(b[128 + 4 * ((b[26] & 0x0F) as int) + 2]),
        blk_cnt: le64(b, 0),
    }
}

/// The blocks that `len` bytes make up in blocks of `blk_sz` bytes.
pub open spec fn blocks_of(len: usize, blk_sz: usize) -> int {
    len as int / blk_sz as int
}

/// The stores that a transfer relies on: the entries of the list page,
/// where there is one.
pub open spec fn list_stores(list: Option<PrpList>) -> Seq<Store> {
    match list {
        Some(l) => l.layout(),
        None => Seq::empty(),
    }
}

/// The memory that a transfer gives back when it has completed: the list
/// page, where there is one.
pub open spec fn list_scratch(list: Option<PrpList>) -> Option<(usize, usize)> {
    match list {
        Some(l) => Some((l.addr, l.sz)),
        None => None,
    }
}

/// A command on blocks from `lba` on with the PRP pair `prp`, where CDW12
/// holds `count`: the number of blocks less one.
pub open spec fn block_cmd(opc: u8, nsid: u32, lba: u64, count: u32, prp1: u64, prp2: u64) -> Cmd {
    Cmd { opc, nsid, prp1, prp2, cdw10: low32(lba), cdw11: high32(lba), cdw12: count }
}

/// How a transfer begins when the PRP construction yielded `r`: its
/// failure ends the transfer; otherwise the list entries are stored, the
/// command is submitted, and the list page is scratch.
pub open spec fn transfer_begun(
    before: CtrlModel,
    r: Result<Prp>,
    opc: u8,
    nsid: u32,
    lba: u64,
    count: u32,
    s: Step<IoCall, ()>,
    after: CtrlModel,
) -> bool {
    match r {
        Err(e) => after == before && s@ == Plan::<IoCall, ()>::done(Seq::empty(), Err(e)),
        Ok(prp) => before.io_begun(
            block_cmd(opc, nsid, lba, count, prp.0, prp.1),
            list_stores(prp.2),
            list_scratch(prp.2),
            s,
            after,
        ),
    }
}

/// The blocks that `len` bytes make up in blocks of `blk_sz` bytes, as
/// CDW12 holds them: their number less one.
pub open spec fn count_of(len: usize, blk_sz: usize) -> u32 {
    (blocks_of(len, blk_sz) - 1) as u32
}

/// What the preparation of a transfer yields when the PRP construction
/// yielded `r`: its failure, or the PRP pair with the stores that the
/// transfer relies on and the memory that it gives back.
pub open spec fn prepared(
    r: Result<Prp>,
    out: Result<(u64, u64, Vec<Store>, Option<(usize, usize)>)>,
) -> bool {
    match r {
        Err(e) => out == Err::<(u64, u64, Vec<Store>, Option<(usize, usize)>), NVMeError>(e),
        Ok(prp) => {
            &&& out matches Ok((prp1, prp2, pre, scratch))
            &&& prp1 == prp.0
            &&& prp2 == prp.1
            &&& pre@ == list_stores(prp.2)
            &&& scratch == list_scratch(prp.2)
        },
    }
}

/// Builds the PRP pair for the `len` bytes at `buf`, with the stores that
/// fill the list page and the memory to give back after the transfer.
pub fn prepare<A: Dma>(alloc: &A, buf: usize, len: usize) -> (out: Result<
    (u64, u64, Vec<Store>, Option<(usize, usize)>),
>)
    requires
        buf + len <= usize::MAX,
        page_count(buf, len) >= 1,
    ensures
        exists|list_va: usize, r: Result<Prp>| #[trigger]
            prp_for(alloc, buf, len, list_va, r) && prepared(r, out),
{
    let r = build_prp(alloc, buf, len);
    let ghost r0 = r;
    let ghost list_va = choose|list_va: usize| prp_for(alloc, buf, len, list_va, r0);
    let out = match r {
        Err(e) => Err(e),
        Ok((prp1, prp2, list)) => {
            let mut pre: Vec<Store> = Vec::new();
            let scratch = match &list {
                Some(l) => {
                    l.lay_out(&mut pre);
                    Some((l.addr, l.sz))
                },
                None => None,
            };
            assert(pre@ =~= list_stores(list));
            Ok((prp1, prp2, pre, scratch))
        },
    };
    assert(prp_for(alloc, buf, len, list_va, r0) && prepared(r0, out));
    out
}

/// How the identification of namespace `nsid` begins: as an operation with
/// a buffer does.
pub open spec fn ns_begun<A: Dma>(
    before: CtrlModel,
    provider: A,
    nsid: u32,
    s: Step<NsLoad, Ns>,
    after: CtrlModel,
) -> bool {
    exists|sub: Step<Load, Ns>| #[trigger]
        buffered(before, provider, id_ns_cmd(nsid, 0), ID_LEN, sub, after) && s@
            == ns_lifted(nsid, sub@)
}

/// How the identification of a namespace goes on when it is handed
/// `reply`: as the load does, and the bytes are read as identify data.
pub open spec fn ns_went_on(
    before: CtrlModel,
    st: NsLoad,
    reply: Reply,
    s: Step<NsLoad, Ns>,
    after: CtrlModel,
) -> bool {
    &&& after == loaded(before, st.load, reply).0
    &&& match loaded(before, st.load, reply).1 {
        LoadedModel::Wait(stores, f, then) => s@ == Plan::<NsLoad, Ns>::wait(
            stores,
            f,
            NsLoad { nsid: st.nsid, load: then },
        ),
        LoadedModel::Fail(stores, e) => s@ == Plan::<NsLoad, Ns>::done(stores, Err(e)),
        LoadedModel::Data(stores, b) => s.stores@ == stores && (s.next matches Next::Done(
            Ok(ns),
        ) && ns@ == identified(st.nsid, b)),
    }
}

/// What `trim_with` owes for the range of `blocks` blocks from `lba` on,
/// given the address `range_buf` that the provider returned for the range
/// descriptor: without memory, `OoRam`; otherwise Dataset Management with
/// one range and the deallocate attribute begins, after the descriptor has
/// been stored, and the descriptor's memory is scratch.
pub open spec fn trimming<A: Dma>(
    before: CtrlModel,
    provider: A,
    nsid: u32,
    lba: u64,
    blocks: u64,
    range_buf: usize,
    s: Step<IoCall, ()>,
    after: CtrlModel,
) -> bool {
    if range_buf == 0 {
        after == before && s@ == Plan::<IoCall, ()>::done(Seq::empty(), Err(NVMeError::OoRam))
    } else {
        before.io_begun(
            Cmd {
                opc: 0x09,
                nsid,
                prp1: provider.phys(range_buf) as u64,
                prp2: 0,
                cdw10: 0,
                cdw11: DSM_DEALLOCATE,
                cdw12: 0,
            },
            seq![Store::Range { addr: range_buf, attr: 0, blocks: low32(blocks), slba: lba }],
            Some((range_buf, RANGE_LEN)),
            s,
            after,
        )
    }
}

impl Ns {
    /// The blocks that `len` bytes make up.
    fn blocks(&self, len: usize) -> (nlb: u16)
        requires
            self@.blk_sz != 0,
            1 <= blocks_of(len, self@.blk_sz) <= 0xFFFF,
        ensures
            nlb == blocks_of(len, self@.blk_sz),
            nlb - 1 == count_of(len, self@.blk_sz),
    {
        (len / self.blk_sz) as u16
    }

    /// Begins the identification of namespace `nsid`; goes on with
    /// `new_next`. Without memory for the buffer the operation ends at once
    /// with `OoRam`.
    pub fn new<A: Dma>(ctrl: &mut Ctrl<A>, nsid: u32) -> (s: Step<NsLoad, Ns>)
        requires
            old(ctrl)@.wf(),
        ensures
            final(ctrl)@.wf(),
            final(ctrl).provider() == old(ctrl).provider(),
            ns_begun(old(ctrl)@, old(ctrl).provider(), nsid, s, final(ctrl)@),
            s.next matches Next::Fetch(_, st) ==> st.load.size == ID_LEN,
    {
        let buffer = ctrl.dma().allocate(ID_LEN);
        let sub: Step<Load, Ns> = if buffer == 0 {
            Step::done(Vec::new(), Err(NVMeError::OoRam))
        } else {
            let buffer_phys = ctrl.dma().virt_to_phys(buffer) as u64;
            let cmd = Cmd::id_ns(nsid, buffer_phys);
            let sub: Step<Load, Ns> = ctrl.load(&cmd, buffer, ID_LEN);
            assert(load_begun(
                old(ctrl)@,
                Cmd { prp1: old(ctrl).provider().phys(buffer) as u64, ..id_ns_cmd(nsid, 0) },
                buffer,
                ID_LEN,
                sub,
                ctrl@,
            ));
            sub
        };
        let ghost taken = sub;
        let s = ns_lift(nsid, sub);
        assert(buffered(
            old(ctrl)@,
            old(ctrl).provider(),
            id_ns_cmd(nsid, 0),
            ID_LEN,
            taken,
            ctrl@,
        ) && s@ == ns_lifted(nsid, taken@));
        s
    }

    /// Goes on with the identification of a namespace. The operation
    /// yields the namespace as the identify data describes it.
    pub fn new_next<A: Dma>(ctrl: &mut Ctrl<A>, st: NsLoad, reply: Reply) -> (s: Step<NsLoad, Ns>)
        requires
            old(ctrl)@.wf(),
            st.load.size >= ID_LEN,
        ensures
            final(ctrl)@.wf(),
            final(ctrl).provider() == old(ctrl).provider(),
            ns_went_on(old(ctrl)@, st, reply, s, final(ctrl)@),
            s.next matches Next::Fetch(_, then) ==> then.load.size == st.load.size,
    {
        match ctrl.load_next(st.load, reply) {
            Loaded::Wait(stores, f, then) => Step::wait(
                stores,
                f,
                NsLoad { nsid: st.nsid, load: then },
            ),
            Loaded::Fail(stores, e) => Step::done(stores, Err(e)),
            Loaded::Data(stores, b) => {
                let ns_id = NsId::decode(b.as_slice(), 0);
                let blk_sz = ns_id.lba_size();
                let blk_cnt = ns_id.nsze;
                proof {
                    let k = ns_id.format_index();
                    assert(0 <= k < 16) by {
                        crate::bits::lemma_and_bound8(ns_id.flbas, 0x0F);
                    }
                    assert(ns_id.lbaf@[k].laid_out(b@, 128 + 4 * k));
                }
                Step::done(stores, Ok(Ns { nsid: st.nsid, blk_sz, blk_cnt }))
            },
        }
    }

    pub fn id(&self) -> (r: u32)
        ensures
            r == self@.nsid,
    {
        return self.nsid;
    }

    /// The size of a logical block in bytes.
    pub fn blk_sz(&self) -> (r: usize)
        ensures
            r == self@.blk_sz,
    {
        return self.blk_sz;
    }

    /// The number of logical blocks.
    pub fn blk_cnt(&self) -> (r: u64)
        ensures
            r == self@.blk_cnt,
    {
        return self.blk_cnt;
    }

    /// Begins reading the blocks from `lba` on into the `len` bytes at
    /// `buf`; goes on with `Ctrl::io_next`.
    pub fn read<A: Dma>(&self, ctrl: &mut Ctrl<A>, lba: u64, buf: usize, len: usize) -> (s: Step<
        IoCall,
        (),
    >)
        requires
            old(ctrl)@.wf(),
            buf + len <= usize::MAX,
            self@.blk_sz != 0,
            1 <= blocks_of(len, self@.blk_sz) <= 0xFFFF,
        ensures
            final(ctrl)@.wf(),
            final(ctrl).provider() == old(ctrl).provider(),
            exists|list_va: usize, r: Result<Prp>| #[trigger]
                prp_for(&old(ctrl).provider(), buf, len, list_va, r) && transfer_begun(
                    old(ctrl)@,
                    r,
                    0x02,
                    self@.nsid,
                    lba,
                    (blocks_of(len, self@.blk_sz) - 1) as u32,
                    s,
                    final(ctrl)@,
                ),
    {
        let nlb = self.blocks(len);
        let out = prepare(ctrl.dma(), buf, len);
        let s = match out {
            Err(e) => Step::done(Vec::new(), Err(e)),
            Ok((prp1, prp2, pre, scratch)) => {
                let cmd = Cmd::read(self.nsid, lba, nlb, prp1, prp2);
                ctrl.io_cmd_with(&cmd, pre, scratch)
            },
        };
        proof {
            let (va, r) = choose|va: usize, r: Result<Prp>| #[trigger]
                prp_for(&old(ctrl).provider(), buf, len, va, r) && prepared(r, out);
            assert(prp_for(&old(ctrl).provider(), buf, len, va, r) && transfer_begun(
                old(ctrl)@,
                r,
                0x02,
                self@.nsid,
                lba,
                (blocks_of(len, self@.blk_sz) - 1) as u32,
                s,
                ctrl@,
            ));
        }
        return s;
    }

    /// Begins writing the `len` bytes at `buf` to the blocks from `lba`
    /// on; goes on with `Ctrl::io_next`.
    pub fn write<A: Dma>(&self, ctrl: &mut Ctrl<A>, lba: u64, buf: usize, len: usize) -> (s: Step<
        IoCall,
        (),
    >)
        requires
            old(ctrl)@.wf(),
            buf + len <= usize::MAX,
            self@.blk_sz != 0,
            1 <= blocks_of(len, self@.blk_sz) <= 0xFFFF,
        ensures
            final(ctrl)@.wf(),
            final(ctrl).provider() == old(ctrl).provider(),
            exists|list_va: usize, r: Result<Prp>| #[trigger]
                prp_for(&old(ctrl).provider(), buf, len, list_va, r) && transfer_begun(
                    old(ctrl)@,
                    r,
                    0x01,
                    self@.nsid,
                    lba,
                    (blocks_of(len, self@.blk_sz) - 1) as u32,
                    s,
                    final(ctrl)@,
                ),
    {
        let nlb = self.blocks(len);
        let out = prepare(ctrl.dma(), buf, len);
        let s = match out {
            Err(e) => Step::done(Vec::new(), Err(e)),
            Ok((prp1, prp2, pre, scratch)) => {
                let cmd = Cmd::write(self.nsid, lba, nlb, prp1, prp2);
                ctrl.io_cmd_with(&cmd, pre, scratch)
            },
        };
        proof {
            let (va, r) = choose|va: usize, r: Result<Prp>| #[trigger]
                prp_for(&old(ctrl).provider(), buf, len, va, r) && prepared(r, out);
            assert(prp_for(&old(ctrl).provider(), buf, len, va, r) && transfer_begun(
                old(ctrl)@,
                r,
                0x01,
                self@.nsid,
                lba,
                (blocks_of(len, self@.blk_sz) - 1) as u32,
                s,
                ctrl@,
            ));
        }
        return s;
    }

    /// Begins a flush of the namespace; goes on with `Ctrl::io_next`.
    pub fn flush<A: Dma>(&self, ctrl: &mut Ctrl<A>) -> (s: Step<IoCall, ()>)
        requires
            old(ctrl)@.wf(),
        ensures
            final(ctrl)@.wf(),
            final(ctrl).provider() == old(ctrl).provider(),
            old(ctrl)@.io_begun(
                (Cmd {
                    opc: 0x00,
                    nsid: self@.nsid,
                    prp1: 0,
                    prp2: 0,
                    cdw10: 0,
                    cdw11: 0,
                    cdw12: 0,
                }),
                Seq::empty(),
                None,
                s,
                final(ctrl)@,
            ),
    {
        let cmd = Cmd::flush(self.nsid);
        return ctrl.io_cmd(&cmd);
    }

    /// Begins deallocating `blocks` blocks from `lba` on: asks the provider
    /// for the memory of one range descriptor and hands it to `trim_with`.
    /// Goes on with `Ctrl::io_next`.
    pub fn trim<A: Dma>(&self, ctrl: &mut Ctrl<A>, lba: u64, blocks: u64) -> (s: Step<IoCall, ()>)
        requires
            old(ctrl)@.wf(),
        ensures
            final(ctrl)@.wf(),
            final(ctrl).provider() == old(ctrl).provider(),
            exists|range_buf: usize| #[trigger]
                trimming(
                    old(ctrl)@,
                    old(ctrl).provider(),
                    self@.nsid,
                    lba,
                    blocks,
                    range_buf,
                    s,
                    final(ctrl)@,
                ),
    {
        let range_buf = ctrl.dma().allocate(RANGE_LEN);
        let s = self.trim_with(ctrl, lba, blocks, range_buf);
        assert(trimming(
            old(ctrl)@,
            old(ctrl).provider(),
            self@.nsid,
            lba,
            blocks,
            range_buf,
            s,
            ctrl@,
        ));
        return s;
    }

    /// Begins deallocating `blocks` blocks from `lba` on, with the range
    /// descriptor in the memory at `range_buf`, which the provider handed
    /// out: the host stores the descriptor before the command is submitted,
    /// and the memory goes back to the provider when the command has
    /// completed. Without memory the operation ends at once with `OoRam`.
    pub fn trim_with<A: Dma>(
        &self,
        ctrl: &mut Ctrl<A>,
        lba: u64,
        blocks: u64,
        range_buf: usize,
    ) -> (s: Step<IoCall, ()>)
        requires
            old(ctrl)@.wf(),
        ensures
            final(ctrl)@.wf(),
            final(ctrl).provider() == old(ctrl).provider(),
            trimming(
                old(ctrl)@,
                old(ctrl).provider(),
                self@.nsid,
                lba,
                blocks,
                range_buf,
                s,
                final(ctrl)@,
            ),
    {
        if range_buf == 0 {
            return Step::done(Vec::new(), Err(NVMeError::OoRam));
        }
        let mut pre: Vec<Store> = Vec::new();
        pre.push(
            Store::Range { addr: range_buf, attr: 0, blocks: crate::bits::lo32(blocks), slba: lba },
        );
        let range_phys = ctrl.dma().virt_to_phys(range_buf) as u64;
        let cmd = Cmd::dset_mgmt(self.nsid, 0, range_phys, DSM_DEALLOCATE);
        assert(pre@ =~= seq![
            Store::Range { addr: range_buf, attr: 0, blocks: low32(blocks), slba: lba },
        ]);
        return ctrl.io_cmd_with(&cmd, pre, Some((range_buf, RANGE_LEN)));
    }

    /// Begins Write Zeroes to `blocks` blocks from `lba` on; goes on with
    /// `Ctrl::io_next`.
    pub fn write_zeroes<A: Dma>(&self, ctrl: &mut Ctrl<A>, lba: u64, blocks: u16) -> (s: Step<
        IoCall,
        (),
    >)
        requires
            old(ctrl)@.wf(),
            blocks >= 1,
        ensures
            final(ctrl)@.wf(),
            final(ctrl).provider() == old(ctrl).provider(),
            old(ctrl)@.io_begun(
                block_cmd(0x08, self@.nsid, lba, (blocks - 1) as u32, 0, 0),
                Seq::empty(),
                None,
                s,
                final(ctrl)@,
            ),
    {
        let cmd = Cmd::wr_zero(self.nsid, lba, blocks);
        return ctrl.io_cmd(&cmd);
    }

    /// Begins Verify of `blocks` blocks from `lba` on; goes on with
    /// `Ctrl::io_next`.
    pub fn verify<A: Dma>(&self, ctrl: &mut Ctrl<A>, lba: u64, blocks: u16) -> (s: Step<IoCall, ()>)
        requires
            old(ctrl)@.wf(),
            blocks >= 1,
        ensures
            final(ctrl)@.wf(),
            final(ctrl).provider() == old(ctrl).provider(),
            old(ctrl)@.io_begun(
                block_cmd(0x0C, self@.nsid, lba, (blocks - 1) as u32, 0, 0),
                Seq::empty(),
                None,
                s,
                final(ctrl)@,
            ),
    {
        let cmd = Cmd::verify(self.nsid, lba, blocks);
        return ctrl.io_cmd(&cmd);
    }

    /// Begins comparing the blocks from `lba` on with the `len` bytes at
    /// `buf`; goes on with `Ctrl::io_next`.
    pub fn compare<A: Dma>(&self, ctrl: &mut Ctrl<A>, lba: u64, buf: usize, len: usize) -> (s:
        Step<IoCall, ()>)
        requires
            old(ctrl)@.wf(),
            buf + len <= usize::MAX,
            self@.blk_sz != 0,
            1 <= blocks_of(len, self@.blk_sz) <= 0xFFFF,
        ensures
            final(ctrl)@.wf(),
            final(ctrl).provider() == old(ctrl).provider(),
            exists|list_va: usize, r: Result<Prp>| #[trigger]
                prp_for(&old(ctrl).provider(), buf, len, list_va, r) && transfer_begun(
                    old(ctrl)@,
                    r,
                    0x05,
                    self@.nsid,
                    lba,
                    count_of(len, self@.blk_sz),
                    s,
                    final(ctrl)@,
                ),
    {
        let nlb = self.blocks(len);
        let out = prepare(ctrl.dma(), buf, len);
        let s = match out {
            Err(e) => Step::done(Vec::new(), Err(e)),
            Ok((prp1, prp2, pre, scratch)) => {
                let cmd = Cmd::cmp(self.nsid, lba, nlb, prp1, prp2);
                ctrl.io_cmd_with(&cmd, pre, scratch)
            },
        };
        proof {
            let (va, r) = choose|va: usize, r: Result<Prp>| #[trigger]
                prp_for(&old(ctrl).provider(), buf, len, va, r) && prepared(r, out);
            assert(prp_for(&old(ctrl).provider(), buf, len, va, r) && transfer_begun(
                old(ctrl)@,
                r,
                0x05,
                self@.nsid,
                lba,
                count_of(len, self@.blk_sz),
                s,
                ctrl@,
            ));
        }
        return s;
    }
}

/// A step of a load, as a step of the identification of namespace `nsid`.
pub open spec fn ns_lifted(nsid: u32, sub: Plan<Load, Ns>) -> Plan<NsLoad, Ns> {
    match sub.next {
        Next::Fetch(f, load) => Plan::wait(sub.stores, f, NsLoad { nsid, load }),
        Next::Done(r) => Plan::done(sub.stores, r),
    }
}

/// Turns a step of a load into a step of the identification of a
/// namespace.
fn ns_lift(nsid: u32, sub: Step<Load, Ns>) -> (s: Step<NsLoad, Ns>)
    ensures
        s@ == ns_lifted(nsid, sub@),
{
    let Step { stores, next } = sub;
    match next {
        Next::Fetch(f, load) => Step::wait(stores, f, NsLoad { nsid, load }),
        Next::Done(r) => Step::done(stores, r),
    }
}

} // verus!
