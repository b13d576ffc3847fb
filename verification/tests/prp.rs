use nvme::bus::Store;
use nvme::ram::{build_prp, count_pages, list_span, Dma, PrpList};
use nvme::NVMeError;
use std::sync::atomic::{AtomicUsize, Ordering};

/// A provider whose physical addresses lie a fixed distance above the
/// virtual ones, and that hands out one region after the other.
struct Pool {
    next: AtomicUsize,
    asked: AtomicUsize,
    freed: AtomicUsize,
    empty: bool,
}

impl Pool {
    fn new() -> Pool {
        Pool {
            next: AtomicUsize::new(0x80_0000),
            asked: AtomicUsize::new(0),
            freed: AtomicUsize::new(0),
            empty: false,
        }
    }
}

fn phys(va: usize) -> u64 {
    (va + 0x1_0000_0000) as u64
}

impl Dma for Pool {
    fn phys(&self, va: usize) -> usize {
        va + 0x1_0000_0000
    }

    fn allocate(&self, size: usize) -> usize {
        self.asked.store(size, Ordering::SeqCst);
        if self.empty {
            return 0;
        }
        self.next.fetch_add(size + 4096, Ordering::SeqCst)
    }

    fn free(&self, _addr: usize, size: usize) {
        self.freed.store(size, Ordering::SeqCst);
    }

    fn virt_to_phys(&self, va: usize) -> usize {
        va + 0x1_0000_0000
    }
}

#[test]
fn one_page_needs_one_entry() {
    let pool = Pool::new();
    assert_eq!(build_prp(&pool, 0x1000, 4096), Ok((phys(0x1000), 0, None)));
    assert_eq!(build_prp(&pool, 0x1000, 1), Ok((phys(0x1000), 0, None)));
    assert_eq!(build_prp(&pool, 0x1004, 4092), Ok((phys(0x1004), 0, None)));
    assert_eq!(build_prp(&pool, 0x1ffc, 4), Ok((phys(0x1ffc), 0, None)));
    assert_eq!(pool.asked.load(Ordering::SeqCst), 0);
}

#[test]
fn two_pages_need_two_entries() {
    let pool = Pool::new();
    assert_eq!(build_prp(&pool, 0x1000, 8192), Ok((phys(0x1000), phys(0x2000), None)));
    assert_eq!(build_prp(&pool, 0x1000, 4097), Ok((phys(0x1000), phys(0x2000), None)));
    assert_eq!(pool.asked.load(Ordering::SeqCst), 0);
}

#[test]
fn four_pages_need_a_list() {
    let pool = Pool::new();
    let (prp1, prp2, list) = build_prp(&pool, 0x1000, 16384).unwrap();
    let list = list.unwrap();
    assert_eq!(prp1, phys(0x1000));
    assert_eq!(prp2, phys(list.addr));
    assert_eq!(list.entries, vec![phys(0x2000), phys(0x3000), phys(0x4000)]);
    assert_eq!(list.sz, 4096);
    assert_eq!(pool.asked.load(Ordering::SeqCst), 4096);
    let mut stores = Vec::new();
    list.lay_out(&mut stores);
    assert_eq!(
        stores,
        vec![
            Store::Quad { addr: list.addr, quad: phys(0x2000) },
            Store::Quad { addr: list.addr + 8, quad: phys(0x3000) },
            Store::Quad { addr: list.addr + 16, quad: phys(0x4000) },
        ]
    );
    list.free(&pool);
    assert_eq!(pool.freed.load(Ordering::SeqCst), 4096);
}

#[test]
fn unaligned_buffers_are_refused() {
    let pool = Pool::new();
    assert_eq!(build_prp(&pool, 0x1001, 8192), Err(NVMeError::InvBuf));
    assert_eq!(build_prp(&pool, 0x1002, 4096), Err(NVMeError::InvBuf));
    assert_eq!(build_prp(&pool, 0x1003, 16), Err(NVMeError::InvBuf));
    // aligned to four bytes, but more than one page from the middle of a page
    assert_eq!(build_prp(&pool, 0x1004, 4096), Err(NVMeError::InvBuf));
    assert_eq!(build_prp(&pool, 0x1ffc, 5), Err(NVMeError::InvBuf));
    assert_eq!(build_prp(&pool, 0x1800, 3 * 4096), Err(NVMeError::InvBuf));
}

#[test]
fn every_page_is_named_once_and_in_order() {
    let pool = Pool::new();
    for len in [1usize, 4095, 4096, 4097, 8192, 8193, 12288, 5 * 4096 + 17, 600 * 4096] {
        let buf = 0x7000_0000usize;
        let pages = (len + 4095) / 4096;
        assert_eq!(count_pages(buf, len), pages);
        let (prp1, prp2, list) = build_prp(&pool, buf, len).unwrap();
        let named: Vec<u64> = match list {
            Some(l) => {
                assert_eq!(prp2, phys(l.addr));
                let mut v = vec![prp1];
                v.extend(l.entries.iter().copied());
                v
            }
            None if pages == 1 => {
                assert_eq!(prp2, 0);
                vec![prp1]
            }
            None => vec![prp1, prp2],
        };
        let want: Vec<u64> = (0..pages).map(|i| phys(buf + i * 4096)).collect();
        assert_eq!(named, want);
    }
}

#[test]
fn list_pages_are_whole_pages() {
    assert_eq!(list_span(3), 4096);
    assert_eq!(list_span(513), 4096);
    assert_eq!(list_span(514), 8192);
    assert_eq!(list_span(1), 0);
    let pool = Pool::new();
    let (_, _, list) = build_prp(&pool, 0x10_0000, 514 * 4096).unwrap();
    let list = list.unwrap();
    assert_eq!(list.sz, 8192);
    assert_eq!(list.entries.len(), 513);
    assert_eq!(pool.asked.load(Ordering::SeqCst), 8192);
}

#[test]
fn no_memory_for_the_list_is_out_of_ram() {
    let mut pool = Pool::new();
    pool.empty = true;
    assert_eq!(build_prp(&pool, 0x1000, 16384), Err(NVMeError::OoRam));
    assert_eq!(pool.asked.load(Ordering::SeqCst), 4096);
    // two pages need no list and so no memory
    assert_eq!(build_prp(&pool, 0x1000, 8192), Ok((phys(0x1000), phys(0x2000), None)));
}

#[test]
fn list_entries_go_eight_bytes_apart() {
    let list = PrpList { addr: 0x9000, sz: 4096, entries: vec![7, 8] };
    let mut stores = vec![Store::Zero { addr: 1, len: 2 }];
    list.lay_out(&mut stores);
    assert_eq!(
        stores,
        vec![
            Store::Zero { addr: 1, len: 2 },
            Store::Quad { addr: 0x9000, quad: 7 },
            Store::Quad { addr: 0x9008, quad: 8 },
        ]
    );
}
