//! DMA pools: fixed-size blocks carved from coherent pages, never crossing
//! a boundary, handed out and taken back last-in first-out.
use vstd::prelude::*;
use crate::base::bus::Device;
use crate::dma::mapping::{DmaAddr, DmaMemory, dma_alloc_coherent, dma_free_coherent};

verus! {

/// Smallest block: room for a free-list link (an optional pointer, 16
/// bytes) and a bus address (8 bytes).
pub const MIN_BLOCK: usize = 24;

/// A page of a pool: CPU and bus address.
#[derive(Debug, Clone, Copy)]
pub struct DmaPage {
    pub vaddr: u64,
    pub dma: DmaAddr,
}

/// A pool of blocks of `size` bytes carved from pages of `allocation`
/// bytes, never crossing a multiple of `boundary`. Free blocks are kept as
/// (CPU address, bus address) pairs; the last one is handed out first.
pub struct DmaPool {
    pub name: String,
    pub dev: Device,
    pub size: usize,
    pub allocation: usize,
    pub boundary: usize,
    pub pages: Vec<DmaPage>,
    pub free: Vec<(u64, DmaAddr)>,
    pub nr_blocks: usize,
    pub nr_active: usize,
    pub nr_pages: usize,
}

/// `x` is a power of two.
pub open spec fn is_pow2(x: usize) -> bool {
    x > 0 && x & ((x - 1) as usize) == 0
}

/// `size` rounded up to a multiple of the power of two `align`.
pub open spec fn align_up(size: usize, align: usize) -> int {
    ((size + align - 1) / (align as int)) * align
}

/// Offsets of the blocks in a page: consecutive blocks of `size` from
/// `off`, jumping to the next boundary `nb` (then `nb + bnd`, ...) where a
/// block would cross it, while blocks fit in `alloc`.
pub open spec fn carve(size: nat, alloc: nat, bnd: nat, off: nat, nb: nat) -> Seq<nat>
    decreases alloc - off, if off + size > nb { 1int } else { 0int },
{
    if size == 0 || bnd < size || nb < off || off + size > alloc {
        Seq::empty()
    } else if off + size > nb {
        carve(size, alloc, bnd, nb, nb + bnd)
    } else {
        seq![off].add(carve(size, alloc, bnd, off + size, nb))
    }
}

/// The pool's parameters are consistent.
pub open spec fn pool_wf(p: &DmaPool) -> bool {
    &&& p.size > 0 && p.size <= p.boundary && p.boundary <= p.allocation
}

impl DmaPool {
    /// A pool of blocks of `size` bytes aligned to `align` (0 counts as 1)
    /// within `boundary` (0: none). The block size is raised to `MIN_BLOCK`
    /// and rounded to the alignment; pages are at least 4096 bytes; the
    /// boundary is capped at the page size. `None` for a size of 0, an
    /// alignment or boundary that is not a power of two, or a boundary
    /// smaller than a block.
    pub fn new(name: &str, dev: Device, size: usize, align: usize, boundary: usize) -> (r: Option<DmaPool>)
        requires
            size + (if align == 0 { 1usize } else { align }) - 1 <= usize::MAX,
            MIN_BLOCK + (if align == 0 { 1usize } else { align }) - 1 <= usize::MAX,
        ensures
            ({
                let al = if align == 0 { 1usize } else { align };
                let sz0 = if size < MIN_BLOCK { MIN_BLOCK } else { size };
                let sz = align_up(sz0, al);
                let alloc = if sz > 4096 { sz } else { 4096 };
                &&& (size == 0 || !is_pow2(al)) ==> r is None
                &&& size != 0 && is_pow2(al) && boundary != 0 && (boundary < sz || !is_pow2(boundary)) ==> r is None
                &&& size != 0 && is_pow2(al) && (boundary == 0 || (boundary >= sz && is_pow2(boundary))) ==> r is Some
                &&& r matches Some(p) ==> pool_wf(&p) && p.name@ == name@ && p.dev == dev && p.size == sz
                    && p.allocation == alloc
                    && p.boundary == (if boundary == 0 { alloc } else if boundary < alloc { boundary as int } else { alloc })
                    && p.pages@.len() == 0 && p.free@.len() == 0
                    && p.nr_blocks == 0 && p.nr_active == 0 && p.nr_pages == 0
            }),
    {
        if size == 0 {
            return None;
        }
        let align = if align == 0 { 1 } else { align };
        if (align & (align - 1)) != 0 {
            return None;
        }
        let mut size = size;
        if size < MIN_BLOCK {
            size = MIN_BLOCK;
        }
        let up = size + (align - 1);
        let q = up / align;
        assert(q * align <= up) by (nonlinear_arith)
            requires q == up / align, align > 0;
        let sz = q * align;
        assert(sz >= size && sz > 0) by (nonlinear_arith)
            requires
                sz == ((up as int) / (align as int)) * align,
                up == size + align - 1,
                size >= 16,
                align > 0,
        ;
        let allocation = if sz > 4096 { sz } else { 4096 };
        let boundary = if boundary == 0 {
            allocation
        } else if boundary < sz || (boundary & (boundary - 1)) != 0 {
            return None;
        } else if boundary < allocation {
            boundary
        } else {
            allocation
        };
        Some(DmaPool {
            name: name.to_owned(),
            dev,
            size: sz,
            allocation,
            boundary,
            pages: Vec::new(),
            free: Vec::new(),
            nr_blocks: 0,
            nr_active: 0,
            nr_pages: 0,
        })
    }
}


/// The blocks of a page: CPU and bus address of each carved offset.
pub open spec fn page_blocks(page: DmaPage, size: usize, alloc: usize, bnd: usize) -> Seq<(u64, DmaAddr)> {
    carve(size as nat, alloc as nat, bnd as nat, 0, bnd as nat).map_values(
        |off: nat| ((page.vaddr + off) as u64, (page.dma + off) as u64),
    )
}

/// Every carved offset leaves room for its block in the page.
proof fn lemma_carve_bounds(size: nat, alloc: nat, bnd: nat, off: nat, nb: nat)
    ensures
        forall|i: int| 0 <= i < carve(size, alloc, bnd, off, nb).len() ==>
            off <= #[trigger] carve(size, alloc, bnd, off, nb)[i] && carve(size, alloc, bnd, off, nb)[i] + size <= alloc,
    decreases alloc - off, if off + size > nb { 1int } else { 0int },
{
    if size == 0 || bnd < size || nb < off || off + size > alloc {
    } else if off + size > nb {
        lemma_carve_bounds(size, alloc, bnd, nb, nb + bnd);
        assert(carve(size, alloc, bnd, off, nb) == carve(size, alloc, bnd, nb, nb + bnd));
    } else {
        lemma_carve_bounds(size, alloc, bnd, off + size, nb);
        let rest = carve(size, alloc, bnd, off + size, nb);
        assert(carve(size, alloc, bnd, off, nb) == seq![off].add(rest));
        assert forall|i: int| 0 <= i < carve(size, alloc, bnd, off, nb).len() implies
            off <= #[trigger] carve(size, alloc, bnd, off, nb)[i] && carve(size, alloc, bnd, off, nb)[i] + size <= alloc by {
            if i > 0 {
                assert(carve(size, alloc, bnd, off, nb)[i] == rest[i - 1]);
            }
        }
    }
}

impl DmaPool {
    /// Carves `page` into blocks (see `carve`) and puts them in front of the
    /// free list, the page's first block first.
    fn initialise_page(&mut self, page: &DmaPage)
        requires
            pool_wf(old(self)),
            old(self).allocation <= usize::MAX / 2,
            page.vaddr + old(self).allocation <= u64::MAX,
            page.dma + old(self).allocation <= u64::MAX,
        ensures
            pool_wf(final(self)),
            final(self).free@ == old(self).free@ + page_blocks(*page, old(self).size, old(self).allocation, old(self).boundary).reverse(),
            final(self).nr_blocks == old(self).nr_blocks as int + page_blocks(*page, old(self).size, old(self).allocation, old(self).boundary).len()
                || old(self).nr_blocks as int + page_blocks(*page, old(self).size, old(self).allocation, old(self).boundary).len() > usize::MAX,
            final(self).nr_pages == (if old(self).nr_pages == usize::MAX { 0 } else { old(self).nr_pages + 1 }),
            final(self).nr_active == old(self).nr_active,
            final(self).pages@ == old(self).pages@,
            final(self).size == old(self).size && final(self).allocation == old(self).allocation
                && final(self).boundary == old(self).boundary && final(self).name == old(self).name && final(self).dev == old(self).dev,
    {
        let size = self.size;
        let alloc = self.allocation;
        let bnd = self.boundary;
        let ghost all = carve(size as nat, alloc as nat, bnd as nat, 0, bnd as nat);
        let mut offsets: Vec<usize> = Vec::new();
        let mut next_boundary = bnd;
        let mut offset: usize = 0;
        while offset + size <= alloc
            invariant
                0 < size <= bnd <= alloc <= usize::MAX / 2,
                offset <= next_boundary,
                offset <= alloc,
                next_boundary <= alloc + bnd,
                offsets@.map_values(|o: usize| o as nat) + carve(size as nat, alloc as nat, bnd as nat, offset as nat, next_boundary as nat) == all,
            decreases alloc - offset, if offset + size > next_boundary { 1int } else { 0int },
        {
            if offset + size > next_boundary {
                offset = next_boundary;
                next_boundary = next_boundary + bnd;
                continue;
            }
            let ghost before = offsets@;
            offsets.push(offset);
            proof {
                assert(offsets@.map_values(|o: usize| o as nat) =~= before.map_values(|o: usize| o as nat).push(offset as nat));
                let c0 = carve(size as nat, alloc as nat, bnd as nat, offset as nat, next_boundary as nat);
                let c1 = carve(size as nat, alloc as nat, bnd as nat, (offset + size) as nat, next_boundary as nat);
                assert(c0 =~= seq![offset as nat].add(c1));
                assert(before.map_values(|o: usize| o as nat).push(offset as nat) + c1 =~= before.map_values(|o: usize| o as nat) + c0);
            }
            offset = offset + size;
        }
        proof {
            assert(carve(size as nat, alloc as nat, bnd as nat, offset as nat, next_boundary as nat) =~= Seq::<nat>::empty());
            assert(offsets@.map_values(|o: usize| o as nat) =~= all);
            lemma_carve_bounds(size as nat, alloc as nat, bnd as nat, 0, bnd as nat);
        }
        let ghost blocks = page_blocks(*page, size, alloc, bnd);
        let ghost free0 = self.free@;
        let n = offsets.len();
        let mut k: usize = n;
        while k > 0
            invariant
                k <= n == offsets@.len(),
                offsets@.map_values(|o: usize| o as nat) == all,
                all == carve(size as nat, alloc as nat, bnd as nat, 0, bnd as nat),
                blocks == page_blocks(*page, size, alloc, bnd),
                blocks.len() == n,
                forall|i: int| 0 <= i < all.len() ==> #[trigger] all[i] + size <= alloc,
                page.vaddr + alloc <= u64::MAX,
                page.dma + alloc <= u64::MAX,
                self.free@ == free0 + blocks.subrange(k as int, n as int).reverse(),
                self.size == size && self.allocation == alloc && self.boundary == bnd,
                self.nr_active == old(self).nr_active && self.nr_pages == old(self).nr_pages
                    && self.nr_blocks == old(self).nr_blocks,
                self.pages@ == old(self).pages@ && self.name == old(self).name && self.dev == old(self).dev,
                free0 == old(self).free@,
            decreases k,
        {
            k = k - 1;
            let off = offsets[k];
            assert(offsets@.map_values(|o: usize| o as nat)[k as int] == off as nat);
            assert(all[k as int] == off as nat);
            assert(all[k as int] + size <= alloc);
            let entry = (page.vaddr + off as u64, page.dma + off as u64);
            assert(blocks == all.map_values(|off: nat| ((page.vaddr + off) as u64, (page.dma + off) as u64)));
            assert(blocks[k as int] == ((page.vaddr + all[k as int]) as u64, (page.dma + all[k as int]) as u64));
            assert(entry == blocks[k as int]);
            self.free.push(entry);
            proof {
                assert(blocks.subrange(k as int, n as int) =~= seq![blocks[k as int]].add(blocks.subrange(k as int + 1, n as int)));
                assert(blocks.subrange(k as int, n as int).reverse() =~= blocks.subrange(k as int + 1, n as int).reverse().push(blocks[k as int]));
            }
        }
        proof {
            assert(blocks.subrange(0, n as int) =~= blocks);
        }
        if self.nr_blocks <= usize::MAX - n {
            self.nr_blocks = self.nr_blocks + n;
        } else {
            self.nr_blocks = self.nr_blocks.wrapping_add(n);
        }
        self.nr_pages = self.nr_pages.wrapping_add(1);
    }
}


/// Fields of the pool other than its free list, pages and counters.
pub open spec fn same_params(a: &DmaPool, b: &DmaPool) -> bool {
    a.size == b.size && a.allocation == b.allocation && a.boundary == b.boundary && a.name == b.name && a.dev == b.dev
}

impl DmaPool {
    /// A fresh coherent page of the pool's allocation size.
    fn alloc_page<M: DmaMemory>(&self, mem: &mut M) -> (r: Option<DmaPage>)
        requires
            self.allocation <= usize::MAX - 4095,
        ensures
            r matches Some(p) ==> p.vaddr != 0 && p.dma == p.vaddr,
    {
        let mut dma_handle: DmaAddr = 0;
        let vaddr = dma_alloc_coherent(mem, &self.dev, self.allocation, &mut dma_handle);
        if vaddr == 0 {
            return None;
        }
        Some(DmaPage { vaddr, dma: dma_handle })
    }

    /// Hands out the most recently freed (or carved) block: its CPU address,
    /// with its bus address in `handle`. With no free block a new page is
    /// taken and carved first; 0 when that fails (or the page would not fit
    /// in the address space).
    pub fn alloc_block<M: DmaMemory>(&mut self, mem: &mut M, handle: &mut DmaAddr) -> (vaddr: u64)
        requires
            pool_wf(old(self)),
        ensures
            pool_wf(final(self)),
            same_params(old(self), final(self)),
            old(self).free@.len() > 0 ==> vaddr == old(self).free@.last().0 && *final(handle) == old(self).free@.last().1
                && final(self).free@ == old(self).free@.drop_last() && final(self).pages@ == old(self).pages@,
            old(self).free@.len() == 0 && vaddr == 0 ==> *final(handle) == *old(handle) && final(self).free@.len() == 0,
            old(self).free@.len() == 0 && vaddr != 0 ==> final(self).pages@.len() == old(self).pages@.len() + 1
                && vaddr == final(self).pages@.last().vaddr && *final(handle) == final(self).pages@.last().dma
                && final(self).pages@.drop_last() == old(self).pages@,
            (old(self).free@.len() > 0 || vaddr != 0) ==> final(self).nr_active == (if old(self).nr_active == usize::MAX { 0 } else { old(self).nr_active + 1 }),
            (old(self).free@.len() == 0 && vaddr == 0) ==> final(self).nr_active == old(self).nr_active,
    {
        if self.free.len() > 0 {
            let (v, d) = self.free.pop().unwrap();
            *handle = d;
            self.nr_active = self.nr_active.wrapping_add(1);
            return v;
        }
        if self.allocation > usize::MAX / 2 {
            return 0;
        }
        let page = match self.alloc_page(mem) {
            None => return 0,
            Some(p) => p,
        };
        if page.vaddr > u64::MAX - self.allocation as u64 || page.dma > u64::MAX - self.allocation as u64 {
            dma_free_coherent(mem, &self.dev, self.allocation, page.vaddr, page.dma);
            return 0;
        }
        self.pages.push(page);
        let ghost pages1 = self.pages@;
        self.initialise_page(&page);
        proof {
            let blocks = page_blocks(page, self.size, self.allocation, self.boundary);
            let c = carve(self.size as nat, self.allocation as nat, self.boundary as nat, 0, self.boundary as nat);
            assert(c == seq![0nat].add(carve(self.size as nat, self.allocation as nat, self.boundary as nat, self.size as nat, self.boundary as nat)));
            assert(blocks.len() == c.len());
            assert(blocks[0] == ((page.vaddr + c[0]) as u64, (page.dma + c[0]) as u64));
            assert(self.free@.last() == blocks[0]);
        }
        if self.free.len() > 0 {
            let (v, d) = self.free.pop().unwrap();
            *handle = d;
            self.nr_active = self.nr_active.wrapping_add(1);
            assert(self.pages@.drop_last() =~= old(self).pages@);
            return v;
        }
        0
    }

    /// Takes block `vaddr` (bus address `dma`) back: it is the next one
    /// handed out. Nothing for address 0.
    pub fn free(&mut self, vaddr: u64, dma: DmaAddr)
        requires
            vaddr == 0 || old(self).nr_active > 0,
        ensures
            same_params(old(self), final(self)),
            final(self).pages@ == old(self).pages@,
            vaddr == 0 ==> final(self).free@ == old(self).free@ && final(self).nr_active == old(self).nr_active,
            vaddr != 0 ==> final(self).free@ == old(self).free@.push((vaddr, dma)) && final(self).nr_active == old(self).nr_active - 1,
    {
        if vaddr == 0 {
            return;
        }
        self.free.push((vaddr, dma));
        self.nr_active = self.nr_active - 1;
    }

    /// Gives all pages back to the memory they came from.
    pub fn destroy<M: DmaMemory>(self, mem: &mut M) {
        if self.allocation > usize::MAX - 4095 {
            return;
        }
        let mut i: usize = 0;
        while i < self.pages.len()
            invariant
                i <= self.pages@.len(),
                self.allocation <= usize::MAX - 4095,
            decreases self.pages.len() - i,
        {
            dma_free_coherent(mem, &self.dev, self.allocation, self.pages[i].vaddr, self.pages[i].dma);
            i = i + 1;
        }
    }
}

/// Creates a pool (see `DmaPool::new`).
pub fn dma_pool_create(name: &str, dev: Device, size: usize, align: usize, boundary: usize) -> (r: Option<DmaPool>)
    requires
        size + (if align == 0 { 1usize } else { align }) - 1 <= usize::MAX,
        MIN_BLOCK + (if align == 0 { 1usize } else { align }) - 1 <= usize::MAX,
    ensures
        ({
            let al = if align == 0 { 1usize } else { align };
            let sz0 = if size < MIN_BLOCK { MIN_BLOCK } else { size };
            let sz = align_up(sz0, al);
            let alloc = if sz > 4096 { sz } else { 4096 };
            &&& (size == 0 || !is_pow2(al)) ==> r is None
            &&& size != 0 && is_pow2(al) && boundary != 0 && (boundary < sz || !is_pow2(boundary)) ==> r is None
            &&& size != 0 && is_pow2(al) && (boundary == 0 || (boundary >= sz && is_pow2(boundary))) ==> r is Some
            &&& r matches Some(p) ==> pool_wf(&p) && p.name@ == name@ && p.size == sz && p.allocation == alloc
                && p.boundary == (if boundary == 0 { alloc } else if boundary < alloc { boundary as int } else { alloc })
                && p.free@.len() == 0 && p.pages@.len() == 0 && p.nr_active == 0
        }),
{
    DmaPool::new(name, dev, size, align, boundary)
}

/// Destroys a pool (see `DmaPool::destroy`).
pub fn dma_pool_destroy<M: DmaMemory>(pool: DmaPool, mem: &mut M) {
    pool.destroy(mem);
}

/// Allocates a block (see `DmaPool::alloc_block`).
pub fn dma_pool_alloc<M: DmaMemory>(pool: &mut DmaPool, mem: &mut M, handle: &mut DmaAddr) -> (vaddr: u64)
    requires
        pool_wf(old(pool)),
    ensures
        pool_wf(final(pool)),
        same_params(old(pool), final(pool)),
        old(pool).free@.len() > 0 ==> vaddr == old(pool).free@.last().0 && *final(handle) == old(pool).free@.last().1
            && final(pool).free@ == old(pool).free@.drop_last(),
        (old(pool).free@.len() > 0 || vaddr != 0) ==> final(pool).nr_active == (if old(pool).nr_active == usize::MAX { 0 } else { old(pool).nr_active + 1 }),
{
    pool.alloc_block(mem, handle)
}

/// Frees a block (see `DmaPool::free`).
pub fn dma_pool_free(pool: &mut DmaPool, vaddr: u64, dma: DmaAddr)
    requires
        vaddr == 0 || old(pool).nr_active > 0,
    ensures
        same_params(old(pool), final(pool)),
        vaddr == 0 ==> final(pool).free@ == old(pool).free@,
        vaddr != 0 ==> final(pool).free@ == old(pool).free@.push((vaddr, dma)) && final(pool).nr_active == old(pool).nr_active - 1,
{
    pool.free(vaddr, dma);
}

} // verus!
