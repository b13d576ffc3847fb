//! The DMA provider that the host supplies, and the construction of the PRP
//! entries that describe a data buffer to the device.

use vstd::prelude::*;
use crate::bus::Store;
use crate::err::{NVMeError, Result};

verus! {

/// Bytes of a memory page as PRP entries count them.
pub const PAGE: usize = 4096;

/// Memory that the device can reach, handed out by the host. The driver asks
/// for memory with `allocate`; it hands memory back in the stores of a step
/// (`Store::Free`), which the host carries out with `free`.
pub trait Dma: Send + Sync {
    /// The physical address behind a virtual one: what `virt_to_phys`
    /// returns for it, at any time.
    spec fn phys(&self, va: usize) -> usize;

    /// A physically contiguous region of `size` bytes, or 0 where none is to
    /// be had.
    fn allocate(&self, size: usize) -> (va: usize);

    /// Gives back a region that `allocate` handed out.
    fn free(&self, addr: usize, size: usize);

    /// The physical address behind `va`.
    fn virt_to_phys(&self, va: usize) -> (pa: usize)
        ensures
            pa == self.phys(va),
    ;
}

/// Offset of `buf` in its page.
pub open spec fn page_offset(buf: usize) -> int {
    buf as int % 4096
}

/// Pages that the `sz` bytes at `buf` touch: `ceil((offset + sz) / 4096)`.
pub open spec fn page_count(buf: usize, sz: usize) -> int {
    (page_offset(buf) + sz + 4095) / 4096
}

/// Bytes of the list that holds the entries after the first for `pages`
/// pages: eight for each, rounded up to whole pages.
pub open spec fn list_bytes(pages: int) -> int {
    ((pages - 1) * 8 + 4095) / 4096 * 4096
}

/// Physical address of page `i` of the buffer at `buf`.
pub open spec fn page_phys<A: Dma>(alloc: &A, buf: usize, i: int) -> u64 {
    alloc.phys((buf + i * 4096) as usize) as u64
}

/// The entries of a PRP list for `pages` pages at `buf`: the physical
/// addresses of pages 1 to `pages - 1`, in order.
pub open spec fn list_entries<A: Dma>(alloc: &A, buf: usize, pages: int) -> Seq<u64> {
    Seq::new((pages - 1) as nat, |i: int| page_phys(alloc, buf, i + 1))
}

/// A page of PRP entries: where it lies, how large it is, and the entries
/// that the host has to store in it, eight bytes each from its start on,
/// before the command that names it is submitted.
#[derive(Debug, PartialEq, Eq)]
pub struct PrpList {
    pub addr: usize,
    pub sz: usize,
    pub entries: Vec<u64>,
}

impl PrpList {
    /// The entries fit in the page, and the page does not wrap round the
    /// address space.
    pub open spec fn fits(&self) -> bool {
        &&& self.addr != 0
        &&& self.addr + self.sz <= usize::MAX
        &&& 8 * self.entries@.len() <= self.sz
    }

    /// The stores that put the entries into the page.
    pub open spec fn layout(&self) -> Seq<Store> {
        Seq::new(
            self.entries@.len(),
            |i: int| Store::Quad { addr: (self.addr + 8 * i) as usize, quad: self.entries@[i] },
        )
    }

    /// Gives the page back to the provider.
    pub fn free<A: Dma>(&self, alloc: &A) {
        alloc.free(self.addr, self.sz);
    }

    /// Appends to `stores` the stores that put the entries into the page.
    pub fn lay_out(&self, stores: &mut Vec<Store>)
        requires
            self.fits(),
        ensures
            final(stores)@ == old(stores)@ + self.layout(),
    {
        let mut i: usize = 0;
        while i < self.entries.len()
            invariant
                i <= self.entries@.len(),
                self.fits(),
                stores@ == old(stores)@ + self.layout().take(i as int),
            decreases self.entries@.len() - i,
        {
            stores.push(Store::Quad { addr: self.addr + 8 * i, quad: self.entries[i] });
            assert(self.layout().take(i + 1) =~= self.layout().take(i as int).push(
                self.layout()[i as int],
            ));
            i += 1;
        }
        assert(self.layout().take(i as int) =~= self.layout());
    }
}

/// The PRP pair of a command, with the list page where one is needed.
pub type Prp = (u64, u64, Option<PrpList>);

/// What `build_prp` owes for the `sz` bytes at `buf`, given the address
/// `list_va` that the provider returned for the list page where one was
/// asked for.
///
/// - A buffer that is not 4-byte aligned is refused.
/// - One page: its address alone.
/// - More than one page, not starting on a page boundary: refused.
/// - Two pages: both addresses.
/// - More: the first address, and a list page with the others; no memory
///   where the provider had none.
pub open spec fn prp_for<A: Dma>(alloc: &A, buf: usize, sz: usize, list_va: usize, r: Result<
    Prp,
>) -> bool {
    let pages = page_count(buf, sz);
    if buf as int % 4 != 0 {
        r == Err::<Prp, NVMeError>(NVMeError::InvBuf)
    } else if pages == 1 {
        r == Ok::<Prp, NVMeError>((page_phys(alloc, buf, 0), 0, None))
    } else if page_offset(buf) != 0 {
        r == Err::<Prp, NVMeError>(NVMeError::InvBuf)
    } else if pages == 2 {
        r == Ok::<Prp, NVMeError>((page_phys(alloc, buf, 0), page_phys(alloc, buf, 1), None))
    } else if list_va == 0 || list_va + list_bytes(pages) > usize::MAX {
        r == Err::<Prp, NVMeError>(NVMeError::OoRam)
    } else {
        &&& r matches Ok((prp1, prp2, Some(list)))
        &&& prp1 == page_phys(alloc, buf, 0)
        &&& prp2 == alloc.phys(list_va) as u64
        &&& list.addr == list_va
        &&& list.sz == list_bytes(pages)
        &&& list.entries@ == list_entries(alloc, buf, pages)
    }
}

/// The pages that a PRP pair names, in order.
pub open spec fn named_pages(prp: Prp, pages: int) -> Seq<u64> {
    match prp.2 {
        Some(list) => seq![prp.0] + list.entries@,
        None => if pages == 1 {
            seq![prp.0]
        } else {
            seq![prp.0, prp.1]
        },
    }
}

/// The pages that the `sz` bytes at `buf` touch.
pub fn count_pages(buf: usize, sz: usize) -> (pages: usize)
    requires
        buf + sz <= usize::MAX,
    ensures
        pages == page_count(buf, sz),
{
    let span = buf % PAGE + sz;
    let whole = span / PAGE;
    if span % PAGE != 0 {
        whole + 1
    } else {
        whole
    }
}

/// The bytes to ask the provider for, for the list of `pages` pages.
pub fn list_span(pages: usize) -> (bytes: usize)
    requires
        1 <= pages,
        pages * 8 <= usize::MAX - PAGE,
    ensures
        bytes == list_bytes(pages as int),
{
    let list_sz = (pages - 1) * 8;
    (list_sz + (PAGE - 1)) / PAGE * PAGE
}

/// The list page at `list_va` for the `pages` pages at `buf`, with its
/// physical address.
pub fn fill_list<A: Dma>(alloc: &A, buf: usize, pages: usize, list_va: usize) -> (r: (
    u64,
    PrpList,
))
    requires
        3 <= pages,
        buf + (pages - 1) * 4096 <= usize::MAX,
        pages * 8 <= usize::MAX - PAGE,
    ensures
        r.0 == alloc.phys(list_va) as u64,
        r.1.addr == list_va,
        r.1.sz == list_bytes(pages as int),
        r.1.entries@ == list_entries(alloc, buf, pages as int),
{
    let mut entries: Vec<u64> = Vec::new();
    let mut i: usize = 0;
    while i < pages - 1
        invariant
            i <= pages - 1,
            3 <= pages,
            buf + (pages - 1) * 4096 <= usize::MAX,
            entries@ == list_entries(alloc, buf, pages as int).take(i as int),
        decreases pages - 1 - i,
    {
        let page_pa = alloc.virt_to_phys(buf + (i + 1) * PAGE);
        entries.push(page_pa as u64);
        assert(list_entries(alloc, buf, pages as int).take(i + 1) =~= list_entries(
            alloc,
            buf,
            pages as int,
        ).take(i as int).push(page_phys(alloc, buf, i + 1)));
        i += 1;
    }
    assert(list_entries(alloc, buf, pages as int).take(i as int) =~= list_entries(
        alloc,
        buf,
        pages as int,
    ));
    let list_pa = alloc.virt_to_phys(list_va) as u64;
    (list_pa, PrpList { addr: list_va, sz: list_span(pages), entries })
}

/// Builds the PRP pair for the `sz` bytes at `buf`. Where the buffer spans
/// more than two pages, asks the provider for a list page; the caller owns
/// that page, has its entries stored, and frees it once the command has
/// completed.
pub fn build_prp<A: Dma>(alloc: &A, buf: usize, sz: usize) -> (r: Result<Prp>)
    requires
        buf + sz <= usize::MAX,
        page_count(buf, sz) >= 1,
    ensures
        exists|list_va: usize| prp_for(alloc, buf, sz, list_va, r),
        r matches Ok((_, _, Some(list))) ==> list.fits(),
{
    if buf % 4 != 0 {
        assert(prp_for(alloc, buf, sz, 0, Err(NVMeError::InvBuf)));
        return Err(NVMeError::InvBuf);
    }
    let prp1 = alloc.virt_to_phys(buf) as u64;
    let off = buf % PAGE;
    let pages = count_pages(buf, sz);

    if pages == 1 {
        assert(prp_for(alloc, buf, sz, 0, Ok((prp1, 0, None))));
        return Ok((prp1, 0, None));
    }
    if off != 0 {
        assert(prp_for(alloc, buf, sz, 0, Err(NVMeError::InvBuf)));
        return Err(NVMeError::InvBuf);
    }
    let prp2_pa = alloc.virt_to_phys(buf + PAGE);

    if pages == 2 {
        assert(prp_for(alloc, buf, sz, 0, Ok((prp1, prp2_pa as u64, None))));
        return Ok((prp1, prp2_pa as u64, None));
    }
    let list_aligned = list_span(pages);
    let list_va = alloc.allocate(list_aligned);

    if list_va == 0 || list_va > usize::MAX - list_aligned {
        assert(prp_for(alloc, buf, sz, list_va, Err(NVMeError::OoRam)));
        return Err(NVMeError::OoRam);
    }
    let (list_pa, list) = fill_list(alloc, buf, pages, list_va);
    let r = Ok((prp1, list_pa, Some(list)));
    assert(prp_for(alloc, buf, sz, list_va, r));
    return r;
}

/// A PRP pair names every page that a page-aligned buffer touches, each by
/// its physical address, in order and no others.
pub proof fn lemma_prp_covers<A: Dma>(alloc: &A, buf: usize, sz: usize, list_va: usize, prp: Prp)
    requires
        buf as int % 4096 == 0,
        sz > 0,
        prp_for(alloc, buf, sz, list_va, Ok(prp)),
    ensures
        page_count(buf, sz) == (sz + 4095) / 4096,
        named_pages(prp, page_count(buf, sz)) == Seq::new(
            page_count(buf, sz) as nat,
            |i: int| page_phys(alloc, buf, i),
        ),
{
    let pages = page_count(buf, sz);
    let all = Seq::new(pages as nat, |i: int| page_phys(alloc, buf, i));
    assert(named_pages(prp, pages) =~= all);
}

/// A buffer that is not 4-byte aligned, or that spans pages without
/// starting on a page boundary, gets no PRP pair.
pub proof fn lemma_prp_refuses<A: Dma>(alloc: &A, buf: usize, sz: usize, list_va: usize, r: Result<
    Prp,
>)
    requires
        prp_for(alloc, buf, sz, list_va, r),
        buf as int % 4 != 0 || (page_offset(buf) != 0 && page_count(buf, sz) > 1),
    ensures
        r == Err::<Prp, NVMeError>(NVMeError::InvBuf),
{
}

} // verus!
