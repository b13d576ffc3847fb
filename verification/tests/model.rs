//! The driver against an in-memory controller: a host that carries out the
//! steps, and a device that answers as the protocol says.

use nvme::bringup::Init;
use nvme::bus::{Fetch, Next, Reply, Step, Store};
use nvme::cmd::{Cmd, Sqe};
use nvme::ctrl::{Ctrl, IoCall, Ticket};
use nvme::dev::NVMeDev;
use nvme::fleet::Resize;
use nvme::ns::{range_bytes, Ns};
use nvme::queue::Cqe;
use nvme::ram::Dma;
use nvme::NVMeError;
use std::collections::HashMap;
use std::sync::{Arc, Mutex};

const PHYS_OFF: usize = 0x4000_0000;
const BLOCK: usize = 4096;

struct Ring {
    sq_pa: u64,
    cq_pa: u64,
    size: usize,
    sq_head: usize,
    cq_tail: usize,
    phase: bool,
    has_sq: bool,
}

struct World {
    // memory
    next_va: usize,
    live: HashMap<usize, usize>,
    fail_allocs: bool,
    bytes: HashMap<usize, u8>,
    sqes: HashMap<usize, Sqe>,
    cqes: HashMap<usize, Cqe>,
    // registers
    cap: u64,
    cc: u32,
    csts: u32,
    aqa: u32,
    asq: u64,
    acq: u64,
    // device
    rings: HashMap<u16, Ring>,
    blocks: HashMap<u64, Vec<u8>>,
    nsids: Vec<u32>,
    grant: u16,
    fail_next: Option<u16>,
    feature: u32,
    errors: Vec<u64>,
    // record
    stores: Vec<Store>,
    reads: Vec<Fetch>,
    seen: Vec<(u16, Sqe)>,
    trimmed: Vec<(u32, u32, u64)>,
}

impl World {
    fn new(cap: u64) -> Arc<Mutex<World>> {
        Arc::new(Mutex::new(World {
            next_va: 0x10_0000,
            live: HashMap::new(),
            fail_allocs: false,
            bytes: HashMap::new(),
            sqes: HashMap::new(),
            cqes: HashMap::new(),
            cap,
            cc: 0,
            csts: 0,
            aqa: 0,
            asq: 0,
            acq: 0,
            rings: HashMap::new(),
            blocks: HashMap::new(),
            nsids: vec![1],
            grant: 64,
            fail_next: None,
            feature: 0x1234_5678,
            errors: Vec::new(),
            stores: Vec::new(),
            reads: Vec::new(),
            seen: Vec::new(),
            trimmed: Vec::new(),
        }))
    }

    fn stride(&self) -> usize {
        4usize << ((self.cap >> 32) & 0xF)
    }

    fn va(pa: u64) -> usize {
        pa as usize - PHYS_OFF
    }

    fn put(&mut self, va: usize, data: &[u8]) {
        for (i, b) in data.iter().enumerate() {
            self.bytes.insert(va + i, *b);
        }
    }

    fn get(&self, va: usize, len: usize) -> Vec<u8> {
        (0..len).map(|i| *self.bytes.get(&(va + i)).unwrap_or(&0)).collect()
    }

    fn quad(&self, va: usize) -> u64 {
        let b = self.get(va, 8);
        let mut v: u64 = 0;
        for i in 0..8 {
            v |= (b[i] as u64) << (8 * i);
        }
        v
    }

    /// The pieces of memory that a PRP pair names for `len` bytes.
    fn pieces(&self, prp1: u64, prp2: u64, len: usize) -> Vec<(usize, usize)> {
        let mut out = Vec::new();
        let first = BLOCK - (prp1 as usize % BLOCK);
        let n = first.min(len);
        out.push((World::va(prp1), n));
        let mut left = len - n;
        if left == 0 {
            return out;
        }
        if left <= BLOCK {
            out.push((World::va(prp2), left));
            return out;
        }
        let mut i = 0;
        while left > 0 {
            let page = self.quad(World::va(prp2) + 8 * i);
            let n = left.min(BLOCK);
            out.push((World::va(page), n));
            left -= n;
            i += 1;
        }
        out
    }

    fn write32(&mut self, off: usize, val: u32) {
        match off {
            0x14 => {
                let was = self.cc;
                self.cc = val;
                if val & 1 != 0 && was & 1 == 0 {
                    let size = (self.aqa & 0xFFF) as usize + 1;
                    self.rings.insert(
                        0,
                        Ring {
                            sq_pa: self.asq,
                            cq_pa: self.acq,
                            size,
                            sq_head: 0,
                            cq_tail: 0,
                            phase: true,
                            has_sq: true,
                        },
                    );
                    self.csts |= 1;
                }
                if val & 1 == 0 {
                    self.csts &= !1;
                }
                if (val >> 14) & 3 == 1 {
                    self.csts = (self.csts & !0xC) | 0x8;
                }
            }
            0x24 => self.aqa = val,
            _ => {
                assert!(off >= 0x1000, "store to an unknown register {:#x}", off);
                let slot = (off - 0x1000) / self.stride();
                assert_eq!((off - 0x1000) % self.stride(), 0);
                let qid = (slot / 2) as u16;
                if slot % 2 == 0 {
                    self.ring(qid, val as usize);
                }
            }
        }
    }

    fn ring(&mut self, qid: u16, tail: usize) {
        loop {
            let (sq_va, head, size) = {
                let r = self.rings.get(&qid).expect("doorbell of a queue that is not there");
                assert!(r.has_sq);
                (World::va(r.sq_pa), r.sq_head, r.size)
            };
            if head == tail {
                break;
            }
            let sqe = *self.sqes.get(&(sq_va + 64 * head)).expect("empty submission slot");
            self.seen.push((qid, sqe));
            let (status, dw0) = match self.fail_next.take() {
                Some(st) => (st, 0),
                None => if qid == 0 {
                    self.admin(&sqe)
                } else {
                    self.io(&sqe)
                },
            };
            let r = self.rings.get_mut(&qid).unwrap();
            r.sq_head = (head + 1) % size;
            let cqe = Cqe {
                dw0,
                dw1: 0,
                sqhd: r.sq_head as u16,
                sqid: qid,
                cid: (sqe.cdw0 >> 16) as u16,
                sf: (status << 1) | (r.phase as u16),
            };
            let at = World::va(r.cq_pa) + 16 * r.cq_tail;
            r.cq_tail = (r.cq_tail + 1) % size;
            if r.cq_tail == 0 {
                r.phase = !r.phase;
            }
            self.cqes.insert(at, cqe);
        }
    }

    fn admin(&mut self, sqe: &Sqe) -> (u16, u32) {
        let opc = (sqe.cdw0 & 0xFF) as u8;
        match opc {
            0x06 => {
                let va = World::va(sqe.prp1);
                match sqe.cdw10 & 0xFF {
                    1 => {
                        let mut d = vec![0u8; 4096];
                        fill(&mut d[4..24], b"TEST");
                        fill(&mut d[24..64], b"MODEL");
                        fill(&mut d[64..72], b"1.0");
                        d[77] = 5;
                        self.put(va, &d);
                    }
                    0 => {
                        if !self.nsids.contains(&sqe.nsid) {
                            return (0x00B, 0);
                        }
                        let mut d = vec![0u8; 4096];
                        d[0..8].copy_from_slice(&1024u64.to_le_bytes());
                        d[8..16].copy_from_slice(&1024u64.to_le_bytes());
                        d[26] = 1;
                        d[128 + 2] = 9;
                        d[132 + 2] = 12;
                        self.put(va, &d);
                    }
                    2 => {
                        let mut d = vec![0u8; 4096];
                        for (i, id) in self.nsids.iter().enumerate() {
                            d[4 * i..4 * i + 4].copy_from_slice(&id.to_le_bytes());
                        }
                        self.put(va, &d);
                    }
                    _ => return (0x002, 0),
                }
                (0, 0)
            }
            0x05 => {
                let qid = (sqe.cdw10 & 0xFFFF) as u16;
                let size = (sqe.cdw10 >> 16) as usize + 1;
                if self.rings.contains_key(&qid) {
                    return (0x101, 0);
                }
                assert_eq!(sqe.cdw11, 1);
                self.rings.insert(
                    qid,
                    Ring {
                        sq_pa: 0,
                        cq_pa: sqe.prp1,
                        size,
                        sq_head: 0,
                        cq_tail: 0,
                        phase: true,
                        has_sq: false,
                    },
                );
                (0, 0)
            }
            0x01 => {
                let qid = (sqe.cdw10 & 0xFFFF) as u16;
                let cqid = (sqe.cdw11 >> 16) as u16;
                assert_eq!(sqe.cdw11 & 0xFFFF, 1);
                assert_eq!(qid, cqid);
                let r = self.rings.get_mut(&qid).expect("submission queue without completion queue");
                assert_eq!(r.size, (sqe.cdw10 >> 16) as usize + 1);
                r.sq_pa = sqe.prp1;
                r.has_sq = true;
                (0, 0)
            }
            0x00 => {
                let qid = sqe.cdw10 as u16;
                match self.rings.get_mut(&qid) {
                    Some(r) if r.has_sq => {
                        r.has_sq = false;
                        (0, 0)
                    }
                    _ => (0x101, 0),
                }
            }
            0x04 => {
                let qid = sqe.cdw10 as u16;
                match self.rings.get(&qid) {
                    Some(r) if !r.has_sq => {
                        self.rings.remove(&qid);
                        (0, 0)
                    }
                    _ => (0x10C, 0),
                }
            }
            0x09 => {
                if sqe.cdw10 == 0x07 {
                    let g = (self.grant - 1) as u32;
                    (0, (g << 16) | g)
                } else {
                    self.feature = sqe.cdw11;
                    (0, 0)
                }
            }
            0x0A => (0, self.feature),
            0x02 => {
                let lid = (sqe.cdw10 & 0xFF) as u8;
                let len = ((sqe.cdw10 >> 16) as usize + 1) * 4;
                let va = World::va(sqe.prp1);
                let mut d = vec![0u8; len];
                match lid {
                    0x02 => {
                        d[0] = 0x04;
                        d[1] = 0x37;
                        d[2] = 0x01;
                        d[3] = 90;
                        d[200] = 0x11;
                        d[201] = 0x22;
                    }
                    0x01 => {
                        for (i, cnt) in self.errors.iter().enumerate() {
                            if 64 * i + 64 <= len {
                                d[64 * i..64 * i + 8].copy_from_slice(&cnt.to_le_bytes());
                                d[64 * i + 12] = 0x86;
                                d[64 * i + 24] = 1;
                            }
                        }
                    }
                    _ => {}
                }
                self.put(va, &d);
                (0, 0)
            }
            0x84 => (0, 0),
            _ => (0x001, 0),
        }
    }

    fn io(&mut self, sqe: &Sqe) -> (u16, u32) {
        let opc = (sqe.cdw0 & 0xFF) as u8;
        let lba = (sqe.cdw10 as u64) | ((sqe.cdw11 as u64) << 32);
        match opc {
            0x01 => {
                let n = (sqe.cdw12 & 0xFFFF) as usize + 1;
                let mut data = Vec::new();
                for (va, len) in self.pieces(sqe.prp1, sqe.prp2, n * BLOCK) {
                    data.extend(self.get(va, len));
                }
                for i in 0..n {
                    self.blocks.insert(lba + i as u64, data[i * BLOCK..(i + 1) * BLOCK].to_vec());
                }
                (0, 0)
            }
            0x02 => {
                let n = (sqe.cdw12 & 0xFFFF) as usize + 1;
                let mut data = Vec::new();
                for i in 0..n {
                    data.extend(self.blocks.get(&(lba + i as u64)).cloned().unwrap_or(vec![0u8; BLOCK]));
                }
                let mut at = 0;
                for (va, len) in self.pieces(sqe.prp1, sqe.prp2, n * BLOCK) {
                    let part = data[at..at + len].to_vec();
                    self.put(va, &part);
                    at += len;
                }
                (0, 0)
            }
            0x05 => {
                let n = (sqe.cdw12 & 0xFFFF) as usize + 1;
                let mut data = Vec::new();
                for (va, len) in self.pieces(sqe.prp1, sqe.prp2, n * BLOCK) {
                    data.extend(self.get(va, len));
                }
                for i in 0..n {
                    let have = self.blocks.get(&(lba + i as u64)).cloned().unwrap_or(vec![0u8; BLOCK]);
                    if have[..] != data[i * BLOCK..(i + 1) * BLOCK] {
                        return (0x285, 0);
                    }
                }
                (0, 0)
            }
            0x09 => {
                assert_eq!(sqe.cdw10, 0);
                assert_eq!(sqe.cdw11, 0x4);
                let d = self.get(World::va(sqe.prp1), 16);
                let attr = u32::from_le_bytes([d[0], d[1], d[2], d[3]]);
                let count = u32::from_le_bytes([d[4], d[5], d[6], d[7]]);
                let mut s = [0u8; 8];
                s.copy_from_slice(&d[8..16]);
                let slba = u64::from_le_bytes(s);
                self.trimmed.push((attr, count, slba));
                for i in 0..count as u64 {
                    self.blocks.remove(&(slba + i));
                }
                (0, 0)
            }
            0x08 => {
                for i in 0..(sqe.cdw12 & 0xFFFF) as u64 + 1 {
                    self.blocks.insert(lba + i, vec![0u8; BLOCK]);
                }
                (0, 0)
            }
            0x00 | 0x0C => (0, 0),
            _ => (0x001, 0),
        }
    }
}

fn fill(field: &mut [u8], text: &[u8]) {
    for b in field.iter_mut() {
        *b = b' ';
    }
    field[..text.len()].copy_from_slice(text);
}

/// The DMA provider of the model: hands out page-aligned memory, and maps
/// virtual to physical addresses by a fixed offset.
#[derive(Clone)]
struct Pool(Arc<Mutex<World>>);

impl Dma for Pool {
    fn phys(&self, va: usize) -> usize {
        va + PHYS_OFF
    }

    fn allocate(&self, size: usize) -> usize {
        let mut w = self.0.lock().unwrap();
        if w.fail_allocs {
            return 0;
        }
        let va = w.next_va;
        w.next_va += (size + 4095) / 4096 * 4096 + 4096;
        w.live.insert(va, size);
        va
    }

    fn free(&self, addr: usize, size: usize) {
        let mut w = self.0.lock().unwrap();
        assert_eq!(w.live.remove(&addr), Some(size), "free of memory that was not allocated so");
    }

    fn virt_to_phys(&self, va: usize) -> usize {
        va + PHYS_OFF
    }
}

fn perform(w: &Arc<Mutex<World>>, store: Store) {
    let mut w = w.lock().unwrap();
    w.stores.push(store);
    match store {
        Store::Reg32 { off, val } => w.write32(off, val),
        Store::Reg64 { off, quad } => match off {
            0x28 => w.asq = quad,
            0x30 => w.acq = quad,
            _ => panic!("64-bit store to register {:#x}", off),
        },
        Store::Zero { addr, len } => {
            for i in 0..len {
                w.bytes.remove(&(addr + i));
                w.sqes.remove(&(addr + i));
                w.cqes.remove(&(addr + i));
            }
        }
        Store::Entry { addr, sqe } => {
            let b = sqe.to_bytes();
            w.put(addr, &b);
            w.sqes.insert(addr, sqe);
        }
        Store::Quad { addr, quad } => {
            w.put(addr, &quad.to_le_bytes());
        }
        Store::Range { addr, attr, blocks, slba } => {
            let b = range_bytes(attr, blocks, slba);
            w.put(addr, &b);
        }
        Store::Free { addr, len } => {
            assert_eq!(w.live.remove(&addr), Some(len), "memory goes back as it was handed out");
        }
    }
}

fn fetch(w: &Arc<Mutex<World>>, f: Fetch) -> Reply {
    let mut w = w.lock().unwrap();
    w.reads.push(f);
    match f {
        Fetch::Pause => Reply::Go,
        Fetch::Reg32 { off } => Reply::Reg32(match off {
            0x14 => w.cc,
            0x1C => w.csts,
            0x24 => w.aqa,
            _ => panic!("32-bit load of register {:#x}", off),
        }),
        Fetch::Reg64 { off } => Reply::Reg64(match off {
            0x00 => w.cap,
            _ => panic!("64-bit load of register {:#x}", off),
        }),
        Fetch::Cqe { addr } => Reply::Cqe(w.cqes.get(&addr).copied().unwrap_or(Cqe {
            dw0: 0,
            dw1: 0,
            sqhd: 0,
            sqid: 0,
            cid: 0,
            sf: 0,
        })),
        Fetch::Bytes { addr, len } => Reply::Bytes(w.get(addr, len)),
    }
}

/// Carries an operation out: performs the stores of each step, reads what
/// the step asks for, and hands it to the next.
fn drive<S, T>(
    w: &Arc<Mutex<World>>,
    first: Step<S, T>,
    mut next: impl FnMut(S, Reply) -> Step<S, T>,
) -> Result<T, NVMeError> {
    let mut step = first;
    for _ in 0..100_000 {
        for s in step.stores {
            perform(w, s);
        }
        match step.next {
            Next::Done(r) => return r,
            Next::Fetch(f, st) => {
                let reply = fetch(w, f);
                step = next(st, reply);
            }
        }
    }
    panic!("the operation did not end");
}

const CAP_WIDE: u64 = 0x0000_00FF_0000_03FF;
const CAP_PLAIN: u64 = 0x0000_0000_0000_003F;

fn bring_up(cap: u64) -> (Arc<Mutex<World>>, Ctrl<Pool>) {
    let w = World::new(cap);
    let mut ctrl = Ctrl::new(0xFEB0_0000, Pool(w.clone()));
    let first = ctrl.init();
    drive(&w, first, |st: Init<Pool>, r| ctrl.init_next(st, r)).expect("bring-up");
    (w, ctrl)
}

fn admin(w: &Arc<Mutex<World>>, ctrl: &mut Ctrl<Pool>, cmd: &Cmd) -> Result<(), NVMeError> {
    let first = ctrl.admin_cmd(cmd);
    drive(w, first, |t: Ticket, r| ctrl.admin_next(t, r))
}

fn io(w: &Arc<Mutex<World>>, ctrl: &mut Ctrl<Pool>, first: Step<IoCall, ()>) -> Result<(), NVMeError> {
    drive(w, first, |c: IoCall, r| ctrl.io_next(c, r))
}

fn namespace(w: &Arc<Mutex<World>>, ctrl: &mut Ctrl<Pool>, nsid: u32) -> Result<Ns, NVMeError> {
    let first = Ns::new(ctrl, nsid);
    drive(w, first, |st, r| Ns::new_next(ctrl, st, r))
}

fn buffer(w: &Arc<Mutex<World>>, data: &[u8]) -> usize {
    let va = Pool(w.clone()).allocate(data.len());
    w.lock().unwrap().put(va, data);
    va
}

#[test]
fn bring_up_programs_the_admin_queue_and_identifies() {
    let (w, ctrl) = bring_up(CAP_WIDE);
    let w = w.lock().unwrap();
    // admin queue of 1024 entries
    assert_eq!(w.aqa, 0x03FF_03FF);
    assert_eq!(w.rings.get(&0).unwrap().size, 1024);
    // CC was written with EN, IOCQES = 4 and IOSQES = 6
    assert!(w.stores.contains(&Store::Reg32 { off: 0x14, val: (4 << 20) | (6 << 16) | 1 }));
    assert_eq!(w.cc, 0x0046_0001);
    // CSTS was polled
    assert!(w.reads.contains(&Fetch::Reg32 { off: 0x1C }));
    // ASQ and ACQ hold the physical addresses of the rings
    assert!(w.stores.contains(&Store::Reg64 { off: 0x28, quad: w.asq }));
    assert!(w.asq as usize > PHYS_OFF && w.acq as usize > PHYS_OFF);
    // identify data
    assert_eq!(ctrl.data().serial, "TEST");
    assert_eq!(ctrl.data().model, "MODEL");
    assert_eq!(ctrl.data().firm, "1.0");
    assert_eq!(ctrl.data().min_pg, 4096);
    assert_eq!(ctrl.data().mts, 4096 * 32);
    assert_eq!(ctrl.data().mts, 131072);
    assert_eq!(ctrl.data().mqe, 1024);
    // the doorbell stride is what CAP[35:32] says
    assert_eq!(ctrl.dstrd(), 15);
    // one I/O queue of min(1024, 256) entries
    assert_eq!(ctrl.ioq_cnt(), 1);
    assert_eq!(ctrl.qids(), vec![1]);
    assert_eq!(w.rings.get(&1).unwrap().size, 256);
    assert!(ctrl.is_active());
    // the identify buffer was given back; the four rings are live
    assert_eq!(w.live.len(), 4);
}

#[test]
fn bring_up_disables_an_enabled_controller_first() {
    let w = World::new(CAP_PLAIN);
    {
        let mut g = w.lock().unwrap();
        g.cc = 1;
        g.csts = 1;
    }
    let mut ctrl = Ctrl::new(0, Pool(w.clone()));
    let first = ctrl.init();
    drive(&w, first, |st: Init<Pool>, r| ctrl.init_next(st, r)).unwrap();
    let g = w.lock().unwrap();
    let cc_writes: Vec<u32> = g
        .stores
        .iter()
        .filter_map(|s| match s {
            Store::Reg32 { off: 0x14, val } => Some(*val),
            _ => None,
        })
        .collect();
    assert_eq!(cc_writes, vec![0, 0x0046_0001]);
    assert_eq!(ctrl.data().mqe, 64);
    assert_eq!(g.rings.get(&0).unwrap().size, 64);
    assert_eq!(g.rings.get(&1).unwrap().size, 64);
}

#[test]
fn bring_up_without_memory_is_out_of_ram() {
    let w = World::new(CAP_PLAIN);
    w.lock().unwrap().fail_allocs = true;
    let mut ctrl = Ctrl::new(0, Pool(w.clone()));
    let first = ctrl.init();
    let r = drive(&w, first, |st: Init<Pool>, r| ctrl.init_next(st, r));
    assert_eq!(r, Err(NVMeError::OoRam));
}

#[test]
fn bring_up_with_a_wrong_reply_is_a_fault() {
    let w = World::new(CAP_PLAIN);
    let mut ctrl = Ctrl::new(0, Pool(w.clone()));
    let first = ctrl.init();
    let st = match first.next {
        Next::Fetch(Fetch::Reg64 { off: 0 }, st) => st,
        _ => panic!("bring-up begins with CAP"),
    };
    let s = ctrl.init_next(st, Reply::Reg32(7));
    assert!(matches!(s.next, Next::Done(Err(NVMeError::IoError))));
}

#[test]
fn write_then_read_gives_the_same_bytes_on_the_single_page_path() {
    let (w, mut ctrl) = bring_up(CAP_PLAIN);
    let ns = namespace(&w, &mut ctrl, 1).unwrap();
    assert_eq!(ns.id(), 1);
    assert_eq!(ns.blk_sz(), 4096);
    assert_eq!(ns.blk_cnt(), 1024);
    let src = buffer(&w, &vec![0xAAu8; 4096]);
    let first = ns.write(&mut ctrl, 0, src, 4096);
    io(&w, &mut ctrl, first).unwrap();
    {
        let g = w.lock().unwrap();
        let (qid, sqe) = *g.seen.last().unwrap();
        assert_eq!(qid, 1);
        assert_eq!(sqe.cdw0 & 0xFF, 0x01);
        assert_eq!(sqe.nsid, 1);
        assert_eq!(sqe.prp1 as usize, src + PHYS_OFF);
        assert_eq!(sqe.prp2, 0);
        assert_eq!(sqe.cdw12, 0);
        assert_eq!(g.blocks.get(&0).unwrap(), &vec![0xAAu8; 4096]);
    }
    let dst = buffer(&w, &vec![0u8; 4096]);
    let first = ns.read(&mut ctrl, 0, dst, 4096);
    io(&w, &mut ctrl, first).unwrap();
    let g = w.lock().unwrap();
    assert_eq!(g.get(dst, 4096), vec![0xAAu8; 4096]);
    assert_eq!(g.seen.last().unwrap().1.prp2, 0);
}

#[test]
fn round_trip_of_two_and_of_five_blocks() {
    let (w, mut ctrl) = bring_up(CAP_PLAIN);
    let ns = namespace(&w, &mut ctrl, 1).unwrap();
    for (lba, k) in [(3u64, 2usize), (40u64, 5usize)] {
        let data: Vec<u8> = (0..k * 4096).map(|i| (i * 7 + k) as u8).collect();
        let live_before = w.lock().unwrap().live.len();
        let src = buffer(&w, &data);
        let first = ns.write(&mut ctrl, lba, src, data.len());
        io(&w, &mut ctrl, first).unwrap();
        {
            let g = w.lock().unwrap();
            let sqe = g.seen.last().unwrap().1;
            assert_eq!(sqe.cdw10 as u64, lba);
            assert_eq!(sqe.cdw12 as usize, k - 1);
            assert_eq!(sqe.prp1 as usize, src + PHYS_OFF);
            if k == 2 {
                assert_eq!(sqe.prp2 as usize, src + 4096 + PHYS_OFF);
            } else {
                let list = World::va(sqe.prp2);
                for i in 0..k - 1 {
                    assert_eq!(g.quad(list + 8 * i) as usize, src + (i + 1) * 4096 + PHYS_OFF);
                }
            }
            // the list page, if any, was given back
            assert_eq!(g.live.len(), live_before + 1);
        }
        let dst = buffer(&w, &vec![0u8; data.len()]);
        let first = ns.read(&mut ctrl, lba, dst, data.len());
        io(&w, &mut ctrl, first).unwrap();
        assert_eq!(w.lock().unwrap().get(dst, data.len()), data);
    }
}

#[test]
fn transfer_from_an_unaligned_buffer_is_refused() {
    let (w, mut ctrl) = bring_up(CAP_PLAIN);
    let ns = namespace(&w, &mut ctrl, 1).unwrap();
    let src = buffer(&w, &vec![1u8; 3 * 4096]);
    let seen = w.lock().unwrap().seen.len();
    let first = ns.write(&mut ctrl, 0, src + 1, 4096);
    assert_eq!(io(&w, &mut ctrl, first), Err(NVMeError::InvBuf));
    let first = ns.read(&mut ctrl, 0, src + 8, 8192);
    assert_eq!(io(&w, &mut ctrl, first), Err(NVMeError::InvBuf));
    assert_eq!(w.lock().unwrap().seen.len(), seen);
}

#[test]
fn queue_count_follows_the_grant() {
    let (w, mut ctrl) = bring_up(CAP_PLAIN);
    w.lock().unwrap().grant = 4;
    let first = ctrl.set_ioq_cnt(8);
    let r = drive(&w, first, |st: Resize<Pool>, r| ctrl.set_ioq_cnt_next(st, r));
    assert_eq!(r, Ok(4));
    assert_eq!(ctrl.ioq_cnt(), 4);
    assert_eq!(ctrl.qids(), vec![1, 2, 3, 4]);
    let g = w.lock().unwrap();
    let mut have: Vec<u16> = g.rings.keys().copied().collect();
    have.sort();
    assert_eq!(have, vec![0, 1, 2, 3, 4]);
    // the request asked for eight of each kind
    let ask = g.seen.iter().find(|(_, s)| s.cdw0 & 0xFF == 0x09 && s.cdw10 == 0x07).unwrap().1;
    assert_eq!(ask.cdw11, (7 << 16) | 7);
}

#[test]
fn queue_count_shrinks_from_the_top() {
    let (w, mut ctrl) = bring_up(CAP_PLAIN);
    let first = ctrl.set_ioq_cnt(5);
    assert_eq!(drive(&w, first, |st: Resize<Pool>, r| ctrl.set_ioq_cnt_next(st, r)), Ok(5));
    let live = w.lock().unwrap().live.len();
    let first = ctrl.set_ioq_cnt(2);
    assert_eq!(drive(&w, first, |st: Resize<Pool>, r| ctrl.set_ioq_cnt_next(st, r)), Ok(2));
    assert_eq!(ctrl.qids(), vec![1, 2]);
    let g = w.lock().unwrap();
    assert_eq!(g.rings.len(), 3);
    // the rings of the three queues that left were given back
    assert_eq!(g.live.len(), live - 6);
    // submission queues are deleted before their completion queues
    let dels: Vec<(u32, u32)> = g
        .seen
        .iter()
        .filter(|(q, s)| *q == 0 && (s.cdw0 & 0xFF == 0x00 || s.cdw0 & 0xFF == 0x04))
        .map(|(_, s)| (s.cdw0 & 0xFF, s.cdw10))
        .collect();
    assert_eq!(dels, vec![(0, 3), (4, 3), (0, 4), (4, 4), (0, 5), (4, 5)]);
    drop(g);
    let first = ctrl.set_ioq_cnt(0);
    assert_eq!(drive(&w, first, |st: Resize<Pool>, r| ctrl.set_ioq_cnt_next(st, r)), Ok(0));
    assert_eq!(ctrl.ioq_cnt(), 2);
}

#[test]
fn failed_command_reports_its_status_and_changes_nothing() {
    let (w, mut ctrl) = bring_up(CAP_PLAIN);
    let queues = ctrl.qids();
    let live = w.lock().unwrap().live.len();
    w.lock().unwrap().fail_next = Some(0x00B);
    let r = admin(&w, &mut ctrl, &Cmd::get_feat(0x06));
    assert_eq!(r, Err(NVMeError::CmdFail(0x00B)));
    assert_eq!(ctrl.qids(), queues);
    assert!(ctrl.is_active());
    assert_eq!(ctrl.data().serial, "TEST");
    assert_eq!(w.lock().unwrap().live.len(), live);
    // the queue goes on working
    assert_eq!(admin(&w, &mut ctrl, &Cmd::get_feat(0x06)), Ok(()));
    // and so for an I/O command
    let ns = namespace(&w, &mut ctrl, 1).unwrap();
    w.lock().unwrap().fail_next = Some(0x281);
    let first = ns.flush(&mut ctrl);
    assert_eq!(io(&w, &mut ctrl, first), Err(NVMeError::CmdFail(0x281)));
    let first = ns.flush(&mut ctrl);
    assert_eq!(io(&w, &mut ctrl, first), Ok(()));
}

#[test]
fn shutdown_twice_leaves_the_registers_as_once() {
    let (w, mut ctrl) = bring_up(CAP_PLAIN);
    let first = ctrl.shutdown();
    drive(&w, first, |st, r| ctrl.shutdown_next(st, r)).unwrap();
    assert!(!ctrl.is_active());
    let (cc1, csts1) = {
        let g = w.lock().unwrap();
        (g.cc, g.csts)
    };
    assert_eq!(cc1 & 1, 0);
    assert_eq!(csts1 & 1, 0);
    assert_eq!((cc1 >> 14) & 3, 1);
    assert_eq!(cc1, 0x0046_4000);
    assert_eq!((csts1 >> 2) & 3, 2);
    let first = ctrl.shutdown();
    drive(&w, first, |st, r| ctrl.shutdown_next(st, r)).unwrap();
    let g = w.lock().unwrap();
    assert_eq!((g.cc, g.csts), (cc1, csts1));
    assert!(!ctrl.is_active());
}

#[test]
fn resume_enables_and_waits_for_ready() {
    let (w, mut ctrl) = bring_up(CAP_PLAIN);
    let first = ctrl.shutdown();
    drive(&w, first, |st, r| ctrl.shutdown_next(st, r)).unwrap();
    let first = ctrl.resume();
    drive(&w, first, |st, r| ctrl.resume_next(st, r)).unwrap();
    assert!(ctrl.is_active());
    let g = w.lock().unwrap();
    assert_eq!(g.cc & 1, 1);
    assert_eq!(g.csts & 1, 1);
}

#[test]
fn shutdown_waits_for_commands_in_flight() {
    let (w, mut ctrl) = bring_up(CAP_PLAIN);
    let begun = ctrl.io_cmd(&Cmd::flush(1));
    let s = ctrl.shutdown();
    assert!(!ctrl.is_active());
    assert!(s.stores.is_empty());
    let st = match s.next {
        Next::Fetch(Fetch::Pause, st) => st,
        _ => panic!("the shutdown did not wait"),
    };
    let again = ctrl.shutdown_next(st, Reply::Go);
    let st = match again.next {
        Next::Fetch(Fetch::Pause, st) => st,
        _ => panic!("the shutdown did not wait"),
    };
    // the host carries the flush out
    io(&w, &mut ctrl, begun).unwrap();
    let goes = ctrl.shutdown_next(st, Reply::Go);
    assert!(matches!(goes.next, Next::Fetch(Fetch::Reg32 { off: 0x14 }, _)));
    drive(&w, goes, |st, r| ctrl.shutdown_next(st, r)).unwrap();
    assert_eq!(w.lock().unwrap().cc & 1, 0);
}

#[test]
fn io_command_completes_after_the_host_has_rung() {
    let (w, mut ctrl) = bring_up(CAP_PLAIN);
    let begun = ctrl.io_cmd(&Cmd::flush(1));
    assert_eq!(begun.stores.len(), 2);
    let before = w.lock().unwrap().seen.len();
    io(&w, &mut ctrl, begun).unwrap();
    assert_eq!(w.lock().unwrap().seen.len(), before + 1);
    let first = ctrl.shutdown();
    drive(&w, first, |st, r| ctrl.shutdown_next(st, r)).unwrap();
}

#[test]
fn io_commands_take_turns_over_the_queues() {
    let (w, mut ctrl) = bring_up(CAP_PLAIN);
    let first = ctrl.set_ioq_cnt(3);
    drive(&w, first, |st: Resize<Pool>, r| ctrl.set_ioq_cnt_next(st, r)).unwrap();
    let start = w.lock().unwrap().seen.len();
    for _ in 0..7 {
        let first = ctrl.io_cmd(&Cmd::flush(1));
        io(&w, &mut ctrl, first).unwrap();
    }
    let g = w.lock().unwrap();
    let on: Vec<u16> = g.seen[start..].iter().map(|(q, _)| *q).collect();
    assert_eq!(on, vec![1, 2, 3, 1, 2, 3, 1]);
}

#[test]
fn io_command_without_queues_has_no_queue() {
    let w = World::new(CAP_PLAIN);
    let mut ctrl = Ctrl::new(0, Pool(w.clone()));
    let s = ctrl.io_cmd(&Cmd::flush(1));
    assert!(s.stores.is_empty());
    assert!(matches!(s.next, Next::Done(Err(NVMeError::InvQp))));
    let s = ctrl.admin_cmd(&Cmd::async_req());
    assert!(matches!(s.next, Next::Done(Err(NVMeError::InvQp))));
}

#[test]
fn removing_queues() {
    let (w, mut ctrl) = bring_up(CAP_PLAIN);
    let first = ctrl.rm_ioq(0);
    assert_eq!(drive(&w, first, |st, r| ctrl.rm_ioq_next(st, r)), Err(NVMeError::InvQp));
    let first = ctrl.rm_ioq(9);
    assert_eq!(drive(&w, first, |st, r| ctrl.rm_ioq_next(st, r)), Err(NVMeError::InvQp));
    let first = ctrl.rm_ioq(1);
    assert_eq!(drive(&w, first, |st, r| ctrl.rm_ioq_next(st, r)), Ok(()));
    assert_eq!(ctrl.ioq_cnt(), 0);
    assert_eq!(w.lock().unwrap().rings.len(), 1);
    let first = ctrl.io_cmd(&Cmd::flush(1));
    assert_eq!(io(&w, &mut ctrl, first), Err(NVMeError::InvQp));
    // the identifier is free again, and the lowest
    let first = ctrl.new_ioq(16);
    assert_eq!(drive(&w, first, |st, r| ctrl.new_ioq_next(st, r)), Ok(()));
    assert_eq!(ctrl.qids(), vec![1]);
    assert_eq!(w.lock().unwrap().rings.get(&1).unwrap().size, 16);
}

#[test]
fn creating_queues() {
    let (w, mut ctrl) = bring_up(CAP_PLAIN);
    let first = ctrl.new_ioq(0);
    assert_eq!(drive(&w, first, |st, r| ctrl.new_ioq_next(st, r)), Err(NVMeError::FullQp));
    let first = ctrl.new_ioq(8);
    assert_eq!(drive(&w, first, |st, r| ctrl.new_ioq_next(st, r)), Ok(()));
    assert_eq!(ctrl.qids(), vec![1, 2]);
    // a failure of the device gives the queue up
    let live = w.lock().unwrap().live.len();
    w.lock().unwrap().fail_next = Some(0x102);
    let first = ctrl.new_ioq(8);
    assert_eq!(
        drive(&w, first, |st, r| ctrl.new_ioq_next(st, r)),
        Err(NVMeError::CmdFail(0x102))
    );
    assert_eq!(ctrl.qids(), vec![1, 2]);
    assert_eq!(w.lock().unwrap().live.len(), live);
    // no memory
    w.lock().unwrap().fail_allocs = true;
    let first = ctrl.new_ioq(8);
    assert_eq!(drive(&w, first, |st, r| ctrl.new_ioq_next(st, r)), Err(NVMeError::OoRam));
}

#[test]
fn every_identifier_taken_is_a_full_fleet() {
    // CAP.MQES = 1: the controller data records two entries, and so two identifiers
    let (w, mut ctrl) = bring_up(0x1);
    assert_eq!(ctrl.data().mqe, 2);
    let first = ctrl.new_ioq(2);
    assert_eq!(drive(&w, first, |st, r| ctrl.new_ioq_next(st, r)), Ok(()));
    let first = ctrl.new_ioq(2);
    assert_eq!(drive(&w, first, |st, r| ctrl.new_ioq_next(st, r)), Err(NVMeError::FullQp));
}

#[test]
fn features() {
    let (w, mut ctrl) = bring_up(CAP_PLAIN);
    let first = ctrl.set_feat(0x06, 0xCAFE);
    drive(&w, first, |t, r| ctrl.admin_next(t, r)).unwrap();
    let first = ctrl.get_feat(0x06);
    assert_eq!(drive(&w, first, |t, r| ctrl.get_feat_next(t, r)), Ok(0xCAFE));
    w.lock().unwrap().grant = 0x21;
    let first = ctrl.set_qs_n(3, 5);
    assert_eq!(drive(&w, first, |t, r| ctrl.set_qs_n_next(t, r)), Ok((0x21, 0x21)));
    assert_eq!(w.lock().unwrap().seen.last().unwrap().1.cdw11, (4 << 16) | 2);
    let first = ctrl.en_async_ev();
    drive(&w, first, |t, r| ctrl.admin_next(t, r)).unwrap();
    {
        let g = w.lock().unwrap();
        let sqe = g.seen.last().unwrap().1;
        assert_eq!(sqe.cdw10, 0x0B);
        assert_eq!(sqe.cdw11, (1 << 0) | (1 << 8) | (1 << 9));
    }
}

#[test]
fn sanitize_calls() {
    let (w, mut ctrl) = bring_up(CAP_PLAIN);
    let first = ctrl.block_erase();
    drive(&w, first, |t, r| ctrl.admin_next(t, r)).unwrap();
    assert_eq!(w.lock().unwrap().seen.last().unwrap().1.cdw10, 2);
    let first = ctrl.overwrite(3, true);
    drive(&w, first, |t, r| ctrl.admin_next(t, r)).unwrap();
    assert_eq!(w.lock().unwrap().seen.last().unwrap().1.cdw10, 3 | (3 << 4) | (1 << 8));
    let first = ctrl.crypto_erase();
    drive(&w, first, |t, r| ctrl.admin_next(t, r)).unwrap();
    let g = w.lock().unwrap();
    assert_eq!(g.seen.last().unwrap().1.cdw10, 4);
    assert_eq!(g.seen.last().unwrap().1.cdw0 & 0xFF, 0x84);
}

#[test]
fn namespace_list_and_identification() {
    let (w, mut ctrl) = bring_up(CAP_PLAIN);
    w.lock().unwrap().nsids = vec![1, 2, 7];
    let live = w.lock().unwrap().live.len();
    let first = ctrl.reg_nss();
    let ids = drive(&w, first, |l, r| ctrl.reg_nss_next(l, r)).unwrap();
    assert_eq!(ids, vec![1, 2, 7]);
    assert_eq!(w.lock().unwrap().live.len(), live);
    let ns = namespace(&w, &mut ctrl, 7).unwrap();
    assert_eq!((ns.id(), ns.blk_sz(), ns.blk_cnt()), (7, 4096, 1024));
    assert_eq!(namespace(&w, &mut ctrl, 3), Err(NVMeError::CmdFail(0x00B)));
    assert_eq!(w.lock().unwrap().live.len(), live);
    w.lock().unwrap().fail_allocs = true;
    assert_eq!(namespace(&w, &mut ctrl, 1), Err(NVMeError::OoRam));
    let first = ctrl.reg_nss();
    assert_eq!(drive(&w, first, |l, r| ctrl.reg_nss_next(l, r)), Err(NVMeError::OoRam));
}

#[test]
fn log_pages() {
    let (w, mut ctrl) = bring_up(CAP_PLAIN);
    let live = w.lock().unwrap().live.len();
    let first = ctrl.smart_log();
    let smart = drive(&w, first, |l, r| ctrl.smart_log_next(l, r)).unwrap();
    assert_eq!(smart.crit_warn, 0x04);
    assert_eq!(smart.temp, [0x37, 0x01]);
    assert_eq!(smart.avl_spr, 90);
    assert_eq!(smart.tmp_sens[0], 0x2211);
    {
        let g = w.lock().unwrap();
        assert_eq!(g.seen.last().unwrap().1.cdw10, (127 << 16) | 0x02);
        assert_eq!(g.live.len(), live);
    }
    w.lock().unwrap().errors = vec![9, 8, 0, 6];
    let first = ctrl.error_log(4);
    let errs = drive(&w, first, |l, r| ctrl.error_log_next(l, r)).unwrap();
    assert_eq!(errs.len(), 2);
    assert_eq!((errs[0].err_cnt, errs[1].err_cnt), (9, 8));
    assert_eq!(errs[0].status, 0x86);
    assert_eq!(errs[0].nsid, 1);
    {
        let g = w.lock().unwrap();
        assert_eq!(g.seen.last().unwrap().1.cdw10, ((4 * 64 / 4 - 1) << 16) | 0x01);
        assert_eq!(g.live.len(), live);
    }
    let page = buffer(&w, &vec![0xFFu8; 512]);
    let first = ctrl.log_page(0x02, page, 512);
    drive(&w, first, |t, r| ctrl.admin_next(t, r)).unwrap();
    {
        let g = w.lock().unwrap();
        assert_eq!(g.get(page, 4), vec![0x04, 0x37, 0x01, 90]);
        assert_eq!(g.seen.last().unwrap().1.prp1 as usize, page + PHYS_OFF);
    }
    for len in [0usize, 3, 6, 510] {
        let first = ctrl.log_page(0x02, page, len);
        assert_eq!(drive(&w, first, |t, r| ctrl.admin_next(t, r)), Err(NVMeError::InvBuf));
    }
}

#[test]
fn trim_describes_one_range_and_gives_it_back() {
    let (w, mut ctrl) = bring_up(CAP_PLAIN);
    let ns = namespace(&w, &mut ctrl, 1).unwrap();
    let src = buffer(&w, &vec![5u8; 8192]);
    let first = ns.write(&mut ctrl, 10, src, 8192);
    io(&w, &mut ctrl, first).unwrap();
    let live = w.lock().unwrap().live.len();
    let first = ns.trim(&mut ctrl, 10, 2);
    io(&w, &mut ctrl, first).unwrap();
    let g = w.lock().unwrap();
    assert_eq!(g.trimmed, vec![(0, 2, 10)]);
    assert!(g.blocks.get(&10).is_none() && g.blocks.get(&11).is_none());
    assert_eq!(g.live.len(), live);
    let sqe = g.seen.last().unwrap().1;
    assert_eq!(sqe.cdw0 & 0xFF, 0x09);
    assert_eq!((sqe.nsid, sqe.cdw10, sqe.cdw11), (1, 0, 4));
}

#[test]
fn zeroes_verify_and_compare() {
    let (w, mut ctrl) = bring_up(CAP_PLAIN);
    let ns = namespace(&w, &mut ctrl, 1).unwrap();
    let first = ns.write_zeroes(&mut ctrl, 0x1_0000_0005, 3);
    io(&w, &mut ctrl, first).unwrap();
    {
        let g = w.lock().unwrap();
        let sqe = g.seen.last().unwrap().1;
        assert_eq!((sqe.cdw0 & 0xFF, sqe.cdw10, sqe.cdw11, sqe.cdw12), (0x08, 5, 1, 2));
        assert_eq!(g.blocks.get(&0x1_0000_0007).unwrap(), &vec![0u8; 4096]);
        assert!(g.blocks.get(&0x1_0000_0008).is_none());
    }
    let first = ns.verify(&mut ctrl, 7, 9);
    io(&w, &mut ctrl, first).unwrap();
    {
        let g = w.lock().unwrap();
        let sqe = g.seen.last().unwrap().1;
        assert_eq!((sqe.cdw0 & 0xFF, sqe.cdw10, sqe.cdw11, sqe.cdw12), (0x0C, 7, 0, 8));
    }
    let data = buffer(&w, &vec![3u8; 4096]);
    let first = ns.write(&mut ctrl, 20, data, 4096);
    io(&w, &mut ctrl, first).unwrap();
    let first = ns.compare(&mut ctrl, 20, data, 4096);
    assert_eq!(io(&w, &mut ctrl, first), Ok(()));
    {
        let g = w.lock().unwrap();
        let sqe = g.seen.last().unwrap().1;
        assert_eq!((sqe.cdw0 & 0xFF, sqe.cdw10, sqe.cdw12), (0x05, 20, 0));
    }
    let other = buffer(&w, &vec![4u8; 4096]);
    let first = ns.compare(&mut ctrl, 20, other, 4096);
    assert_eq!(io(&w, &mut ctrl, first), Err(NVMeError::CmdFail(0x285)));
}

#[test]
fn device_finds_its_namespaces() {
    let w = World::new(CAP_PLAIN);
    w.lock().unwrap().nsids = vec![1, 4];
    let first = NVMeDev::new(0xD000_0000, Pool(w.clone()));
    let mut dev = drive(&w, first, |p, r| NVMeDev::new_next(p, r)).unwrap();
    assert_eq!(dev.ctrl().mmio(), 0xD000_0000);
    assert_eq!(dev.ctrl().data().model, "MODEL");
    assert_eq!(dev.ns_list().len(), 2);
    assert_eq!(dev.ns_list()[1].id(), 4);
    assert_eq!(dev.ns(4).map(|n| n.blk_sz()), Some(4096));
    assert!(dev.ns(2).is_none());
    assert_eq!(nvme::dev::position(dev.ns_list(), 1), Some(0));
    assert_eq!(nvme::dev::position(dev.ns_list(), 4), Some(1));
    assert_eq!(nvme::dev::position(dev.ns_list(), 5), None);
    let ns = dev.ns(1).unwrap();
    let data = buffer(&w, &vec![0x5Au8; 4096]);
    let first = ns.write(dev.ctrl_mut(), 1, data, 4096);
    io(&w, dev.ctrl_mut(), first).unwrap();
    assert_eq!(w.lock().unwrap().blocks.get(&1).unwrap(), &vec![0x5Au8; 4096]);
}

#[test]
fn device_passes_over_a_namespace_that_cannot_be_identified() {
    let w = World::new(CAP_PLAIN);
    w.lock().unwrap().nsids = vec![1, 2, 3];
    let mut probe = NVMeDev::new(0, Pool(w.clone()));
    let mut identifies = 0;
    let dev = loop {
        for s in probe.stores {
            if let Store::Entry { sqe, .. } = s {
                if sqe.cdw0 & 0xFF == 0x06 && sqe.cdw10 == 0 {
                    identifies += 1;
                    if identifies == 2 {
                        w.lock().unwrap().fail_next = Some(0x00B);
                    }
                }
            }
            perform(&w, s);
        }
        match probe.next {
            Next::Done(r) => break r.unwrap(),
            Next::Fetch(f, st) => {
                let reply = fetch(&w, f);
                probe = NVMeDev::new_next(st, reply);
            }
        }
    };
    let ids: Vec<u32> = dev.ns_list().iter().map(|n| n.id()).collect();
    assert_eq!(ids, vec![1, 3]);
}

#[test]
fn device_without_a_working_controller_fails() {
    let w = World::new(CAP_PLAIN);
    w.lock().unwrap().fail_allocs = true;
    let first = NVMeDev::new(0, Pool(w.clone()));
    assert!(matches!(drive(&w, first, |p, r| NVMeDev::new_next(p, r)), Err(NVMeError::OoRam)));
}

#[test]
fn doorbells_count_up_round_the_ring() {
    let (w, mut ctrl) = bring_up(CAP_PLAIN);
    let first = ctrl.rm_ioq(1);
    drive(&w, first, |st, r| ctrl.rm_ioq_next(st, r)).unwrap();
    let first = ctrl.new_ioq(4);
    drive(&w, first, |st, r| ctrl.new_ioq_next(st, r)).unwrap();
    let start = w.lock().unwrap().stores.len();
    for _ in 0..6 {
        let first = ctrl.io_cmd(&Cmd::flush(1));
        io(&w, &mut ctrl, first).unwrap();
    }
    let g = w.lock().unwrap();
    let bells = |off: usize| -> Vec<u32> {
        g.stores[start..]
            .iter()
            .filter_map(|s| match s {
                Store::Reg32 { off: o, val } if *o == off => Some(*val),
                _ => None,
            })
            .collect()
    };
    // queue 1 with stride 4: submission doorbell at 0x1008, completion at 0x100C
    assert_eq!(bells(0x1008), vec![1, 2, 3, 0, 1, 2]);
    assert_eq!(bells(0x100C), vec![1, 2, 3, 0, 1, 2]);
    // the entry is stored before the doorbell is rung
    let kinds: Vec<u8> = g.stores[start..start + 3]
        .iter()
        .map(|s| match s {
            Store::Entry { .. } => 0,
            Store::Reg32 { off: 0x1008, .. } => 1,
            Store::Reg32 { off: 0x100C, .. } => 2,
            _ => 9,
        })
        .collect();
    assert_eq!(kinds, vec![0, 1, 2]);
    // identifiers count up
    let cids: Vec<u32> = g.seen[g.seen.len() - 6..].iter().map(|(_, s)| s.cdw0 >> 16).collect();
    assert_eq!(cids, vec![0, 1, 2, 3, 4, 5]);
}

#[test]
fn bring_up_gives_the_admin_queue_no_more_entries_than_the_register_can_say() {
    let (w, ctrl) = bring_up(0xFFFF);
    let g = w.lock().unwrap();
    assert_eq!(g.aqa, 0x0FFF_0FFF);
    assert_eq!(g.rings.get(&0).unwrap().size, 4096);
    assert_eq!(ctrl.data().mqe, 0xFFFF);
    assert_eq!(g.rings.get(&1).unwrap().size, 256);
    assert_eq!(ctrl.data().min_pg, 4096);
}

#[test]
fn bring_up_takes_the_page_size_from_the_capabilities() {
    // MPSMIN = 2: pages of 16 KiB; with MDTS = 5 the largest transfer is 512 KiB
    let (_w, ctrl) = bring_up((2u64 << 48) | 0x3F);
    assert_eq!(ctrl.data().min_pg, 16384);
    assert_eq!(ctrl.data().mts, 16384 * 32);
    assert_eq!(ctrl.dstrd(), 0);
}

#[test]
fn bring_up_fails_where_identify_fails() {
    let w = World::new(CAP_PLAIN);
    w.lock().unwrap().fail_next = Some(0x006);
    let mut ctrl = Ctrl::new(0, Pool(w.clone()));
    let first = ctrl.init();
    let r = drive(&w, first, |st: Init<Pool>, r| ctrl.init_next(st, r));
    assert_eq!(r, Err(NVMeError::CmdFail(0x006)));
    // the identify buffer went back; the admin rings stay with the controller
    assert_eq!(w.lock().unwrap().live.len(), 2);
    assert_eq!(ctrl.ioq_cnt(), 0);
}

#[test]
fn fewer_bytes_than_asked_for_are_a_fault_of_the_host() {
    let (w, mut ctrl) = bring_up(CAP_PLAIN);
    let live = w.lock().unwrap().live.len();
    let mut step = ctrl.reg_nss();
    let mut asked = None;
    let r = loop {
        for s in step.stores {
            perform(&w, s);
        }
        match step.next {
            Next::Done(r) => break r,
            Next::Fetch(f, load) => {
                let reply = match f {
                    Fetch::Bytes { addr, len } => {
                        asked = Some(len);
                        Reply::Bytes(w.lock().unwrap().get(addr, len - 1))
                    }
                    other => fetch(&w, other),
                };
                step = ctrl.reg_nss_next(load, reply);
            }
        }
    };
    assert_eq!(asked, Some(4096));
    assert_eq!(r, Err(NVMeError::IoError));
    assert_eq!(w.lock().unwrap().live.len(), live);
}

#[test]
fn a_reply_of_the_wrong_kind_is_a_fault_of_the_host() {
    let (_w, mut ctrl) = bring_up(CAP_PLAIN);
    let begun = ctrl.get_feat(1);
    let t = match begun.next {
        Next::Fetch(Fetch::Cqe { .. }, t) => t,
        _ => panic!("the command was not submitted"),
    };
    let s = ctrl.get_feat_next(t, Reply::Reg32(0));
    assert!(s.stores.is_empty());
    assert!(matches!(s.next, Next::Done(Err(NVMeError::IoError))));
    let s = ctrl.resume_next(nvme::power::Resume::Enabling, Reply::Go);
    assert!(matches!(s.next, Next::Done(Err(NVMeError::IoError))));
    let s = ctrl.shutdown_next(nvme::power::Shutdown::Config, Reply::Bytes(vec![]));
    assert!(matches!(s.next, Next::Done(Err(NVMeError::IoError))));
    // a completion for a queue that is not there
    let s = ctrl.admin_next(
        Ticket { qid: 40, cid: 0 },
        Reply::Cqe(Cqe { dw0: 0, dw1: 0, sqhd: 0, sqid: 0, cid: 0, sf: 1 }),
    );
    assert!(matches!(s.next, Next::Done(Err(NVMeError::InvQp))));
}

#[test]
fn enabling_programs_the_admin_registers_in_order() {
    let w = World::new(CAP_PLAIN);
    let pool = Pool(w.clone());
    let mut zeroes = Vec::new();
    let admin = nvme::queue::Queue::new(0, 32, &pool, &mut zeroes).unwrap();
    let (sq, cq) = (admin.sq().addr(), admin.cq().addr());
    let s = Ctrl::<Pool>::enable_with(CAP_PLAIN, admin, zeroes);
    assert_eq!(
        s.stores,
        vec![
            Store::Zero { addr: sq, len: 32 * 64 },
            Store::Zero { addr: cq, len: 32 * 16 },
            Store::Reg64 { off: 0x28, quad: (sq + PHYS_OFF) as u64 },
            Store::Reg64 { off: 0x30, quad: (cq + PHYS_OFF) as u64 },
            Store::Reg32 { off: 0x24, val: (31 << 16) | 31 },
            Store::Reg32 { off: 0x14, val: 0x0046_0001 },
        ]
    );
    assert!(matches!(s.next, Next::Fetch(Fetch::Reg32 { off: 0x1C }, Init::Enabling { .. })));
}

#[test]
fn identifying_without_a_buffer_is_out_of_ram() {
    let w = World::new(CAP_PLAIN);
    let pool = Pool(w.clone());
    let mut ctrl = Ctrl::new(0, pool.clone());
    let admin = nvme::queue::Queue::new(0, 8, &pool, &mut Vec::new()).unwrap();
    let s = ctrl.identify_with(CAP_PLAIN, admin, 0);
    assert!(s.stores.is_empty());
    assert!(matches!(s.next, Next::Done(Err(NVMeError::OoRam))));
    // a second admin queue takes the place of the first, whose memory goes back
    let second = nvme::queue::Queue::new(0, 8, &pool, &mut Vec::new()).unwrap();
    let s = ctrl.identify_with(CAP_PLAIN, second, 0x9000);
    assert_eq!(s.stores.len(), 5);
    assert!(matches!(s.stores[0], Store::Free { len: 512, .. }));
    assert!(matches!(s.stores[1], Store::Free { len: 128, .. }));
    assert_eq!(s.stores[2], Store::Zero { addr: 0x9000, len: 4096 });
    match s.stores[3] {
        Store::Entry { sqe, .. } => {
            assert_eq!(sqe.cdw0, 0x06);
            assert_eq!(sqe.cdw10, 1);
            assert_eq!(sqe.prp1 as usize, 0x9000 + PHYS_OFF);
        }
        _ => panic!("the identify command comes after the buffer is zeroed"),
    }
    assert_eq!(s.stores[4], Store::Reg32 { off: 0x1000, val: 1 });
}

#[test]
fn a_queue_pair_offered_without_an_admin_queue_goes_back() {
    let w = World::new(CAP_PLAIN);
    let pool = Pool(w.clone());
    let mut ctrl = Ctrl::new(0, pool.clone());
    let mut zeroes = Vec::new();
    let q = nvme::queue::Queue::new(3, 8, &pool, &mut zeroes).unwrap();
    let (sq, cq) = (q.sq().addr(), q.cq().addr());
    let s = ctrl.new_ioq_with(q, zeroes);
    assert_eq!(
        s.stores,
        vec![
            Store::Zero { addr: sq, len: 512 },
            Store::Zero { addr: cq, len: 128 },
            Store::Free { addr: sq, len: 512 },
            Store::Free { addr: cq, len: 128 },
        ]
    );
    assert!(matches!(s.next, Next::Done(Err(NVMeError::InvQp))));
}

#[test]
fn a_queue_pair_offered_joins_the_fleet_in_its_place() {
    let (w, mut ctrl) = bring_up(CAP_PLAIN);
    let pool = Pool(w.clone());
    for qid in [7u16, 3, 5] {
        let mut zeroes = Vec::new();
        let q = nvme::queue::Queue::new(qid, 4, &pool, &mut zeroes).unwrap();
        let first = ctrl.new_ioq_with(q, zeroes);
        drive(&w, first, |st, r| ctrl.new_ioq_next(st, r)).unwrap();
    }
    assert_eq!(ctrl.qids(), vec![1, 3, 5, 7]);
    assert_eq!(ctrl.lowest_unused(), Some(2));
    assert_eq!(ctrl.first_above(3), Some(5));
    assert_eq!(ctrl.first_above(7), None);
    assert_eq!(ctrl.find(5), Some(2));
    assert_eq!(ctrl.find(2), None);
    assert!(ctrl.io_idle() && ctrl.admin_idle() && ctrl.queue_idle(5));
    // an identifier that is taken: the device refuses, and the pair goes back
    let live = w.lock().unwrap().live.len();
    let mut zeroes = Vec::new();
    let q = nvme::queue::Queue::new(5, 4, &pool, &mut zeroes).unwrap();
    let first = ctrl.new_ioq_with(q, zeroes);
    assert_eq!(
        drive(&w, first, |st, r| ctrl.new_ioq_next(st, r)),
        Err(NVMeError::CmdFail(0x101))
    );
    assert_eq!(w.lock().unwrap().live.len(), live);
    assert_eq!(ctrl.qids(), vec![1, 3, 5, 7]);
}

#[test]
fn trim_on_given_memory() {
    let (w, mut ctrl) = bring_up(CAP_PLAIN);
    let ns = namespace(&w, &mut ctrl, 1).unwrap();
    let s = ns.trim_with(&mut ctrl, 4, 0x1_0000_0002, 0);
    assert!(s.stores.is_empty());
    assert!(matches!(s.next, Next::Done(Err(NVMeError::OoRam))));
    let s = ns.trim_with(&mut ctrl, 4, 0x1_0000_0002, 0x6000);
    assert_eq!(s.stores.len(), 3);
    // the length is what 32 bits hold of the number of blocks
    assert_eq!(s.stores[0], Store::Range { addr: 0x6000, attr: 0, blocks: 2, slba: 4 });
    match s.stores[1] {
        Store::Entry { sqe, .. } => {
            assert_eq!(sqe.cdw0 & 0xFF, 0x09);
            assert_eq!(sqe.prp1 as usize, 0x6000 + PHYS_OFF);
        }
        _ => panic!("the command comes after the range"),
    }
    match s.next {
        Next::Fetch(Fetch::Cqe { .. }, call) => {
            assert_eq!(call.scratch, Some((0x6000, 16)));
            assert_eq!(call.ticket.qid, 1);
        }
        _ => panic!("the command was not submitted"),
    }
}

#[test]
fn scratch_of_a_command_that_cannot_be_submitted_goes_back() {
    let w = World::new(CAP_PLAIN);
    let mut ctrl = Ctrl::new(0, Pool(w.clone()));
    let pre = vec![Store::Quad { addr: 0x7000, quad: 1 }];
    let s = ctrl.io_cmd_with(&Cmd::flush(1), pre, Some((0x7000, 4096)));
    assert_eq!(s.stores, vec![Store::Free { addr: 0x7000, len: 4096 }]);
    assert!(matches!(s.next, Next::Done(Err(NVMeError::InvQp))));
    let s = ctrl.load::<()>(&Cmd::id_nss(0), 0x8000, 4096);
    assert_eq!(s.stores, vec![Store::Free { addr: 0x8000, len: 4096 }]);
    assert!(matches!(s.next, Next::Done(Err(NVMeError::InvQp))));
}
