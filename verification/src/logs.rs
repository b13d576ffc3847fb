//! Admin commands that fill a buffer of the driver's own: the list of
//! active namespaces, the SMART log and the error log.

use vstd::prelude::*;
use crate::bits::pair16;
use crate::bus::{Fetch, Next, Plan, Reply, Step, Store};
use crate::cmd::Cmd;
use crate::ctrl::{log_dwords, Ctrl, CtrlModel, Ticket};
use crate::err::NVMeError;
use crate::id::{LogErr, LogSmart, LOG_ERR, LOG_ERR_LEN, LOG_SMART, LOG_SMART_LEN};
use crate::ram::Dma;
use crate::wire::{le32, le64, rd32};

verus! {

broadcast use vstd::slice::group_slice_axioms;

/// Bytes of the buffer that an Identify command fills.
pub const ID_LEN: usize = 4096;

/// The most identifiers that a namespace list holds.
pub const NS_LIST_MAX: usize = 1024;

/// A command in flight that fills the `size` bytes at `buf`, which the
/// driver asked the provider for and which go back to it when the operation
/// ends.
#[derive(Clone, Copy, Debug, PartialEq, Eq)]
pub struct Load {
    pub ticket: Ticket,
    pub buf: usize,
    pub size: usize,
    /// Whether the command has completed and the host has been asked for
    /// the bytes.
    pub arrived: bool,
}

/// Where a load stands after a step.
pub enum Loaded {
    /// The host performs the stores, reads the fetch and comes back with
    /// the load.
    Wait(Vec<Store>, Fetch, Load),
    /// The load has failed; the host performs the stores.
    Fail(Vec<Store>, NVMeError),
    /// The bytes of the buffer; the host performs the stores.
    Data(Vec<Store>, Vec<u8>),
}

/// A `Loaded` as a value.
pub enum LoadedModel {
    Wait(Seq<Store>, Fetch, Load),
    Fail(Seq<Store>, NVMeError),
    Data(Seq<Store>, Seq<u8>),
}

impl View for Loaded {
    type V = LoadedModel;

    open spec fn view(&self) -> LoadedModel {
        match *self {
            Loaded::Wait(stores, f, load) => LoadedModel::Wait(stores@, f, load),
            Loaded::Fail(stores, e) => LoadedModel::Fail(stores@, e),
            Loaded::Data(stores, b) => LoadedModel::Data(stores@, b@),
        }
    }
}

/// How a load begins with the command `cmd` into the buffer at `buf`:
/// without an admin queue it ends at once and the buffer goes back to the
/// provider; otherwise the buffer is zeroed and the command submitted.
pub open spec fn load_begun<T>(
    before: CtrlModel,
    cmd: Cmd,
    buf: usize,
    size: usize,
    s: Step<Load, T>,
    after: CtrlModel,
) -> bool {
    if before.admin is None {
        after == before && s@ == Plan::<Load, T>::done(
            seq![Store::Free { addr: buf, len: size }],
            Err(NVMeError::InvQp),
        )
    } else {
        after == before.posted(0) && s@ == Plan::<Load, T>::wait(
            seq![Store::Zero { addr: buf, len: size }] + before.submission(0, cmd),
            before.watch(0),
            Load { ticket: before.ticket(0), buf, size, arrived: false },
        )
    }
}

/// The step of the load `load` that is handed `reply`, and the controller
/// after it.
///
/// - While the reply does not complete the command, the host reads again.
/// - A failed command ends the load with its failure.
/// - Once the command has completed, the host is asked for the bytes of the
///   buffer.
/// - Fewer bytes than the buffer holds, or a reply of another kind, are a
///   fault of the host.
/// - When the load ends, with the bytes or with a failure, the buffer goes
///   back to the provider.
pub open spec fn loaded(c: CtrlModel, load: Load, reply: Reply) -> (CtrlModel, LoadedModel) {
    if !load.arrived {
        let acks = c.fed_stores(load.ticket, reply);
        (
            c.fed(load.ticket, reply),
            match c.fed_outcome(load.ticket, reply) {
                None => LoadedModel::Wait(acks, c.watch(load.ticket.qid), load),
                Some(Err(e)) => LoadedModel::Fail(
                    acks + seq![Store::Free { addr: load.buf, len: load.size }],
                    e,
                ),
                Some(Ok(_)) => LoadedModel::Wait(
                    acks,
                    Fetch::Bytes { addr: load.buf, len: load.size },
                    Load { arrived: true, ..load },
                ),
            },
        )
    } else {
        let back = seq![Store::Free { addr: load.buf, len: load.size }];
        (
            c,
            match reply {
                Reply::Bytes(b) => if b@.len() >= load.size {
                    LoadedModel::Data(back, b@)
                } else {
                    LoadedModel::Fail(back, NVMeError::IoError)
                },
                _ => LoadedModel::Fail(back, NVMeError::IoError),
            },
        )
    }
}

/// Whether `ids` is the list of namespaces that the buffer `b` holds: its
/// 32-bit entries in order, up to the first that is 0 and no more than 1024.
pub open spec fn is_ns_list(b: Seq<u8>, ids: Seq<u32>) -> bool {
    &&& ids.len() <= NS_LIST_MAX
    &&& forall|i: int| 0 <= i < ids.len() ==> #[trigger] ids[i] == le32(b, 4 * i) && ids[i] != 0
    &&& ids.len() < NS_LIST_MAX ==> le32(b, 4 * (ids.len() as int)) == 0
}

/// Whether `errs` is the list of errors that the buffer `b` of `n` entries
/// holds: its entries in order, up to the first whose error count is 0.
pub open spec fn is_err_list(b: Seq<u8>, n: int, errs: Seq<LogErr>) -> bool {
    &&& errs.len() <= n
    &&& forall|i: int|
        0 <= i < errs.len() ==> (#[trigger] errs[i]).laid_out(b, LOG_ERR_LEN * i) && errs[i].err_cnt
            != 0
    &&& errs.len() < n ==> le64(b, LOG_ERR_LEN * (errs.len() as int)) == 0
}

/// Identify: active namespace list into the page at `prp1`.
pub open spec fn id_nss_cmd(prp1: u64) -> Cmd {
    Cmd { opc: 0x06, nsid: 0, prp1, prp2: 0, cdw10: 0x02, cdw11: 0, cdw12: 0 }
}

/// Get Log Page `lid` of `len` bytes into the memory at `prp1`.
pub open spec fn get_log_cmd(lid: u8, len: usize, prp1: u64) -> Cmd {
    Cmd {
        opc: 0x02,
        nsid: 0,
        prp1,
        prp2: 0,
        cdw10: pair16(log_dwords(len), lid as u16),
        cdw11: 0,
        cdw12: 0,
    }
}

/// How an operation begins that asks the provider for a buffer of `size`
/// bytes and loads it with the command `cmd`, in which PRP1 is the
/// buffer's physical address: without memory it ends at once with `OoRam`.
pub open spec fn buffered<A: Dma, T>(
    before: CtrlModel,
    provider: A,
    cmd: Cmd,
    size: usize,
    s: Step<Load, T>,
    after: CtrlModel,
) -> bool {
    ||| after == before && s@ == Plan::<Load, T>::done(Seq::empty(), Err(NVMeError::OoRam))
    ||| exists|buf: usize|
        buf != 0 && #[trigger] load_begun(
            before,
            Cmd { prp1: provider.phys(buf) as u64, ..cmd },
            buf,
            size,
            s,
            after,
        )
}

/// How the reading of the namespace list goes on when it is handed
/// `reply`: as the load does, and the bytes are read as a list of
/// namespace identifiers.
pub open spec fn reg_nss_went_on(
    before: CtrlModel,
    load: Load,
    reply: Reply,
    s: Step<Load, Vec<u32>>,
    after: CtrlModel,
) -> bool {
    &&& after == loaded(before, load, reply).0
    &&& match loaded(before, load, reply).1 {
        LoadedModel::Wait(stores, f, then) => s@ == Plan::<Load, Vec<u32>>::wait(stores, f, then),
        LoadedModel::Fail(stores, e) => s@ == Plan::<Load, Vec<u32>>::done(stores, Err(e)),
        LoadedModel::Data(stores, b) => s.stores@ == stores && (s.next matches Next::Done(
            Ok(ids),
        ) && is_ns_list(b, ids@)),
    }
}

/// Reads the list of namespaces from an Identify buffer.
pub fn ns_list(b: &[u8]) -> (ids: Vec<u32>)
    requires
        b.len() >= ID_LEN,
    ensures
        is_ns_list(b@, ids@),
{
    let mut ids: Vec<u32> = Vec::new();
    let mut i: usize = 0;
    while i < NS_LIST_MAX
        invariant
            i <= NS_LIST_MAX,
            b.len() >= ID_LEN,
            ids@.len() == i,
            forall|k: int| 0 <= k < i ==> #[trigger] ids@[k] == le32(b@, 4 * k) && ids@[k] != 0,
        decreases NS_LIST_MAX - i,
    {
        let nsid = rd32(b, 4 * i);
        if nsid == 0 {
            return ids;
        }
        ids.push(nsid);
        i += 1;
    }
    ids
}

/// Reads the list of errors from an error log buffer of `n` entries.
pub fn err_list(b: &[u8], n: usize) -> (errs: Vec<LogErr>)
    requires
        n * LOG_ERR_LEN <= b.len(),
    ensures
        is_err_list(b@, n as int, errs@),
{
    let mut errs: Vec<LogErr> = Vec::new();
    let mut i: usize = 0;
    while i < n
        invariant
            i <= n,
            n * LOG_ERR_LEN <= b.len(),
            errs@.len() == i,
            forall|k: int|
                0 <= k < i ==> (#[trigger] errs@[k]).laid_out(b@, LOG_ERR_LEN * k)
                    && errs@[k].err_cnt != 0,
        decreases n - i,
    {
        let entry = LogErr::decode(b, i * LOG_ERR_LEN);
        if entry.err_cnt == 0 {
            return errs;
        }
        errs.push(entry);
        i += 1;
    }
    errs
}

impl<A: Dma> Ctrl<A> {
    /// Begins a load with the command `cmd` into the buffer at `buf`, which
    /// goes back to the provider at once where the command cannot be
    /// submitted.
    pub fn load<T>(&mut self, cmd: &Cmd, buf: usize, size: usize) -> (s: Step<Load, T>)
        requires
            old(self)@.wf(),
        ensures
            final(self)@.wf(),
            final(self).provider() == old(self).provider(),
            load_begun(old(self)@, *cmd, buf, size, s, final(self)@),
    {
        let mut stores: Vec<Store> = Vec::new();
        stores.push(Store::Zero { addr: buf, len: size });
        match self.post_admin(cmd, &mut stores) {
            Err(e) => {
                let mut back: Vec<Store> = Vec::new();
                back.push(Store::Free { addr: buf, len: size });
                assert(back@ =~= seq![Store::Free { addr: buf, len: size }]);
                Step::done(back, Err(e))
            },
            Ok(ticket) => {
                proof {
                    crate::ctrl::lemma_with_queue(old(self)@, 0, old(self)@.queue(0).submitted());
                    crate::queue::lemma_doorbell_steps(old(self)@.queue(0));
                    assert(stores@ =~= seq![Store::Zero { addr: buf, len: size }] + old(
                        self,
                    )@.submission(0, *cmd));
                }
                let f = self.watch(0);
                Step::wait(stores, f, Load { ticket, buf, size, arrived: false })
            },
        }
    }

    /// Goes on with a load.
    pub fn load_next(&mut self, load: Load, reply: Reply) -> (r: Loaded)
        requires
            old(self)@.wf(),
        ensures
            final(self)@.wf(),
            final(self).provider() == old(self).provider(),
            (final(self)@, r@) == loaded(old(self)@, load, reply),
    {
        if !load.arrived {
            let mut stores: Vec<Store> = Vec::new();
            let out = self.feed(load.ticket, &reply, &mut stores);
            assert(stores@ =~= old(self)@.fed_stores(load.ticket, reply));
            match out {
                None => {
                    proof {
                        crate::ctrl::lemma_fed_nothing(old(self)@, load.ticket, reply);
                    }
                    let f = self.watch(load.ticket.qid);
                    Loaded::Wait(stores, f, load)
                },
                Some(Err(e)) => {
                    stores.push(Store::Free { addr: load.buf, len: load.size });
                    assert(stores@ =~= old(self)@.fed_stores(load.ticket, reply) + seq![
                        Store::Free { addr: load.buf, len: load.size },
                    ]);
                    Loaded::Fail(stores, e)
                },
                Some(Ok(_)) => Loaded::Wait(
                    stores,
                    Fetch::Bytes { addr: load.buf, len: load.size },
                    Load { ticket: load.ticket, buf: load.buf, size: load.size, arrived: true },
                ),
            }
        } else {
            let mut back: Vec<Store> = Vec::new();
            back.push(Store::Free { addr: load.buf, len: load.size });
            assert(back@ =~= seq![Store::Free { addr: load.buf, len: load.size }]);
            match reply {
                Reply::Bytes(b) => {
                    if b.len() >= load.size {
                        Loaded::Data(back, b)
                    } else {
                        Loaded::Fail(back, NVMeError::IoError)
                    }
                },
                _ => Loaded::Fail(back, NVMeError::IoError),
            }
        }
    }

    /// Begins reading the list of active namespaces; goes on with
    /// `reg_nss_next`. Without memory for the buffer the operation ends at
    /// once with `OoRam`.
    pub fn reg_nss(&mut self) -> (s: Step<Load, Vec<u32>>)
        requires
            old(self)@.wf(),
        ensures
            final(self)@.wf(),
            final(self).provider() == old(self).provider(),
            buffered(
                old(self)@,
                old(self).provider(),
                id_nss_cmd(0),
                ID_LEN,
                s,
                final(self)@,
            ),
    {
        let buf = self.dma().allocate(ID_LEN);
        if buf == 0 {
            return Step::done(Vec::new(), Err(NVMeError::OoRam));
        }
        let buf_phys = self.dma().virt_to_phys(buf) as u64;
        let cmd = Cmd::id_nss(buf_phys);
        let s = self.load(&cmd, buf, ID_LEN);
        assert(load_begun(
            old(self)@,
            Cmd { prp1: old(self).provider().phys(buf) as u64, ..id_nss_cmd(0) },
            buf,
            ID_LEN,
            s,
            self@,
        ));
        return s;
    }

    /// Goes on with reading the list of active namespaces. The operation
    /// yields the identifiers in the order of the list.
    pub fn reg_nss_next(&mut self, load: Load, reply: Reply) -> (s: Step<Load, Vec<u32>>)
        requires
            old(self)@.wf(),
            load.size >= ID_LEN,
        ensures
            final(self)@.wf(),
            final(self).provider() == old(self).provider(),
            reg_nss_went_on(old(self)@, load, reply, s, final(self)@),
    {
        match self.load_next(load, reply) {
            Loaded::Wait(stores, f, then) => Step::wait(stores, f, then),
            Loaded::Fail(stores, e) => Step::done(stores, Err(e)),
            Loaded::Data(stores, b) => Step::done(stores, Ok(ns_list(b.as_slice()))),
        }
    }

    /// Begins reading the SMART log; goes on with `smart_log_next`. Without
    /// memory for the buffer the operation ends at once with `OoRam`.
    pub fn smart_log(&mut self) -> (s: Step<Load, LogSmart>)
        requires
            old(self)@.wf(),
        ensures
            final(self)@.wf(),
            final(self).provider() == old(self).provider(),
            buffered(
                old(self)@,
                old(self).provider(),
                get_log_cmd(LOG_SMART, LOG_SMART_LEN, 0),
                LOG_SMART_LEN,
                s,
                final(self)@,
            ),
    {
        let buf = self.dma().allocate(LOG_SMART_LEN);
        if buf == 0 {
            return Step::done(Vec::new(), Err(NVMeError::OoRam));
        }
        let buf_phys = self.dma().virt_to_phys(buf) as u64;
        let cmd = Cmd::get_log(LOG_SMART, 127, buf_phys, 0);
        let s = self.load(&cmd, buf, LOG_SMART_LEN);
        assert(load_begun(
            old(self)@,
            Cmd {
                prp1: old(self).provider().phys(buf) as u64,
                ..get_log_cmd(LOG_SMART, LOG_SMART_LEN, 0)
            },
            buf,
            LOG_SMART_LEN,
            s,
            self@,
        ));
        return s;
    }

    /// Goes on with reading the SMART log. The operation yields the log
    /// page as the device laid it out.
    pub fn smart_log_next(&mut self, load: Load, reply: Reply) -> (s: Step<Load, LogSmart>)
        requires
            old(self)@.wf(),
            load.size >= LOG_SMART_LEN,
        ensures
            final(self)@.wf(),
            final(self).provider() == old(self).provider(),
            final(self)@ == loaded(old(self)@, load, reply).0,
            match loaded(old(self)@, load, reply).1 {
                LoadedModel::Wait(stores, f, then) => s@ == Plan::<Load, LogSmart>::wait(
                    stores,
                    f,
                    then,
                ),
                LoadedModel::Fail(stores, e) => s@ == Plan::<Load, LogSmart>::done(stores, Err(e)),
                LoadedModel::Data(stores, b) => s.stores@ == stores && (s.next matches Next::Done(
                    Ok(log),
                ) && log.laid_out(b, 0)),
            },
    {
        match self.load_next(load, reply) {
            Loaded::Wait(stores, f, then) => Step::wait(stores, f, then),
            Loaded::Fail(stores, e) => Step::done(stores, Err(e)),
            Loaded::Data(stores, b) => Step::done(stores, Ok(LogSmart::decode(b.as_slice(), 0))),
        }
    }

    /// Begins reading `entries` entries of the error log; goes on with
    /// `error_log_next`. Without memory for the buffer the operation ends at
    /// once with `OoRam`.
    pub fn error_log(&mut self, entries: usize) -> (s: Step<Load, Vec<LogErr>>)
        requires
            old(self)@.wf(),
            entries >= 1,
            entries * LOG_ERR_LEN <= usize::MAX,
        ensures
            final(self)@.wf(),
            final(self).provider() == old(self).provider(),
            buffered(
                old(self)@,
                old(self).provider(),
                get_log_cmd(LOG_ERR, (entries * LOG_ERR_LEN) as usize, 0),
                (entries * LOG_ERR_LEN) as usize,
                s,
                final(self)@,
            ),
    {
        let buf_size = entries * LOG_ERR_LEN;
        let buf = self.dma().allocate(buf_size);
        if buf == 0 {
            return Step::done(Vec::new(), Err(NVMeError::OoRam));
        }
        let buf_phys = self.dma().virt_to_phys(buf) as u64;
        let numdl = ((buf_size / 4 - 1) % 0x1_0000) as u16;
        let cmd = Cmd::get_log(LOG_ERR, numdl, buf_phys, 0);
        let s = self.load(&cmd, buf, buf_size);
        assert(load_begun(
            old(self)@,
            Cmd {
                prp1: old(self).provider().phys(buf) as u64,
                ..get_log_cmd(LOG_ERR, buf_size, 0)
            },
            buf,
            buf_size,
            s,
            self@,
        ));
        return s;
    }

    /// Goes on with reading the error log. The operation yields the entries
    /// in the order of the log, up to the first whose error count is 0.
    pub fn error_log_next(&mut self, load: Load, reply: Reply) -> (s: Step<Load, Vec<LogErr>>)
        requires
            old(self)@.wf(),
        ensures
            final(self)@.wf(),
            final(self).provider() == old(self).provider(),
            final(self)@ == loaded(old(self)@, load, reply).0,
            match loaded(old(self)@, load, reply).1 {
                LoadedModel::Wait(stores, f, then) => s@ == Plan::<Load, Vec<LogErr>>::wait(
                    stores,
                    f,
                    then,
                ),
                LoadedModel::Fail(stores, e) => s@ == Plan::<Load, Vec<LogErr>>::done(
                    stores,
                    Err(e),
                ),
                LoadedModel::Data(stores, b) => s.stores@ == stores && (s.next matches Next::Done(
                    Ok(errs),
                ) && is_err_list(b, load.size as int / LOG_ERR_LEN as int, errs@)),
            },
    {
        match self.load_next(load, reply) {
            Loaded::Wait(stores, f, then) => Step::wait(stores, f, then),
            Loaded::Fail(stores, e) => Step::done(stores, Err(e)),
            Loaded::Data(stores, b) => {
                let n = load.size / LOG_ERR_LEN;
                Step::done(stores, Ok(err_list(b.as_slice(), n)))
            },
        }
    }
}

} // verus!
