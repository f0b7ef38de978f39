//! DMA mappings: coherent allocations rounded to whole pages, streaming
//! mappings of single buffers, and the DMA masks of a device. Memory comes
//! from a page allocator supplied by the platform.
use vstd::prelude::*;
use crate::base::bus::Device;

verus! {

/// A bus address.
pub type DmaAddr = u64;

/// Page size and alignment of coherent allocations.
pub const DMA_PAGE: usize = 4096;

/// Directions of streaming mappings.
#[derive(Debug, Clone, Copy, PartialEq, Eq, Structural)]
pub enum DmaDataDirection {
    Bidirectional,
    ToDevice,
    FromDevice,
    NoTransfer,
}

/// A coherent allocation: CPU address, bus address and size.
#[derive(Debug, Clone, Copy)]
pub struct DmaAllocation {
    pub vaddr: u64,
    pub dma_handle: DmaAddr,
    pub size: usize,
}

/// Zeroed, aligned memory for DMA (addresses are plain integers; 0 means
/// none).
pub trait DmaMemory {
    /// `size` zeroed bytes aligned to `align`; 0 when none is left.
    fn alloc_zeroed(&mut self, size: usize, align: usize) -> u64;

    /// Gives back memory from `alloc_zeroed`.
    fn dealloc(&mut self, vaddr: u64, size: usize, align: usize);
}

/// `size` rounded up to whole pages.
pub open spec fn page_round(size: int) -> int {
    ((size + 4095) / 4096) * 4096
}

/// `size` rounded up to whole pages.
pub fn dma_aligned_size(size: usize) -> (n: usize)
    requires
        size <= usize::MAX - 4095,
    ensures
        n == page_round(size as int),
{
    let s = size + 4095;
    let n = s & !4095usize;
    assert(n == ((s as int) / 4096) * 4096) by (bit_vector)
        requires
            n == s & !4095usize,
    ;
    n
}

/// A coherent allocation of `size` bytes (whole pages, page-aligned,
/// zeroed); its bus address is its CPU address and is stored in
/// `dma_handle`. Returns the CPU address, 0 for a size of 0 or when memory
/// runs out (then `dma_handle` is left as it was).
pub fn dma_alloc_attrs<M: DmaMemory>(mem: &mut M, dev: &Device, size: usize, dma_handle: &mut DmaAddr, attrs: u64) -> (vaddr: u64)
    requires
        size <= usize::MAX - 4095,
    ensures
        size == 0 ==> vaddr == 0,
        vaddr == 0 ==> *final(dma_handle) == *old(dma_handle),
        vaddr != 0 ==> *final(dma_handle) == vaddr,
{
    if size == 0 {
        return 0;
    }
    let aligned_size = dma_aligned_size(size);
    let vaddr = mem.alloc_zeroed(aligned_size, DMA_PAGE);
    if vaddr == 0 {
        return 0;
    }
    *dma_handle = vaddr;
    vaddr
}

/// A coherent allocation without attributes (see `dma_alloc_attrs`).
pub fn dma_alloc_coherent<M: DmaMemory>(mem: &mut M, dev: &Device, size: usize, dma_handle: &mut DmaAddr) -> (vaddr: u64)
    requires
        size <= usize::MAX - 4095,
    ensures
        size == 0 ==> vaddr == 0,
        vaddr == 0 ==> *final(dma_handle) == *old(dma_handle),
        vaddr != 0 ==> *final(dma_handle) == vaddr,
{
    dma_alloc_attrs(mem, dev, size, dma_handle, 0)
}

/// Frees a coherent allocation of `size` bytes at `vaddr` (whole pages);
/// nothing for address 0.
pub fn dma_free_attrs<M: DmaMemory>(mem: &mut M, dev: &Device, size: usize, vaddr: u64, dma_handle: DmaAddr, attrs: u64)
    requires
        size <= usize::MAX - 4095,
{
    if vaddr == 0 {
        return;
    }
    let aligned_size = dma_aligned_size(size);
    mem.dealloc(vaddr, aligned_size, DMA_PAGE);
}

/// Frees a coherent allocation (see `dma_free_attrs`).
pub fn dma_free_coherent<M: DmaMemory>(mem: &mut M, dev: &Device, size: usize, vaddr: u64, dma_handle: DmaAddr)
    requires
        size <= usize::MAX - 4095,
{
    dma_free_attrs(mem, dev, size, vaddr, dma_handle, 0);
}

/// Maps a buffer for streaming DMA: its bus address is its CPU address
/// (with or without an IOMMU); 0 for address 0 or an empty buffer.
pub fn dma_map_single_attrs(dev: &Device, ptr: u64, size: usize, dir: DmaDataDirection, attrs: u64) -> (a: DmaAddr)
    ensures
        a == (if ptr == 0 || size == 0 { 0 } else { ptr }),
{
    if ptr == 0 || size == 0 {
        return 0;
    }
    if dev.has_iommu() {
        ptr
    } else {
        ptr
    }
}

/// Maps a buffer without attributes (see `dma_map_single_attrs`).
pub fn dma_map_single(dev: &Device, ptr: u64, size: usize, dir: DmaDataDirection) -> (a: DmaAddr)
    ensures
        a == (if ptr == 0 || size == 0 { 0 } else { ptr }),
{
    dma_map_single_attrs(dev, ptr, size, dir, 0)
}

/// Ends a streaming mapping; nothing to undo without an IOMMU.
pub fn dma_unmap_single_attrs(dev: &Device, addr: DmaAddr, size: usize, dir: DmaDataDirection, attrs: u64) {
    if dev.has_iommu() {
    }
}

/// Ends a streaming mapping (see `dma_unmap_single_attrs`).
pub fn dma_unmap_single(dev: &Device, addr: DmaAddr, size: usize, dir: DmaDataDirection) {
    dma_unmap_single_attrs(dev, addr, size, dir, 0);
}

/// A managed coherent allocation (see `dma_alloc_attrs`).
pub fn dmam_alloc_attrs<M: DmaMemory>(mem: &mut M, dev: &Device, size: usize, dma_handle: &mut DmaAddr, attrs: u64) -> (vaddr: u64)
    requires
        size <= usize::MAX - 4095,
    ensures
        size == 0 ==> vaddr == 0,
        vaddr == 0 ==> *final(dma_handle) == *old(dma_handle),
        vaddr != 0 ==> *final(dma_handle) == vaddr,
{
    dma_alloc_attrs(mem, dev, size, dma_handle, attrs)
}

/// A managed coherent allocation without attributes.
pub fn dmam_alloc_coherent<M: DmaMemory>(mem: &mut M, dev: &Device, size: usize, dma_handle: &mut DmaAddr) -> (vaddr: u64)
    requires
        size <= usize::MAX - 4095,
    ensures
        size == 0 ==> vaddr == 0,
        vaddr == 0 ==> *final(dma_handle) == *old(dma_handle),
        vaddr != 0 ==> *final(dma_handle) == vaddr,
{
    dmam_alloc_attrs(mem, dev, size, dma_handle, 0)
}

/// Frees a managed coherent allocation.
pub fn dmam_free_coherent<M: DmaMemory>(mem: &mut M, dev: &Device, size: usize, vaddr: u64, dma_handle: DmaAddr)
    requires
        size <= usize::MAX - 4095,
{
    dma_free_coherent(mem, dev, size, vaddr, dma_handle);
}

/// The device's streaming DMA mask.
pub fn dma_get_mask(dev: &Device) -> (m: u64)
    ensures
        m == dev.dma_mask,
{
    dev.dma_mask
}

/// Sets the device's streaming DMA mask (always accepted).
pub fn dma_set_mask(dev: &mut Device, mask: u64) -> (r: Result<(), i32>)
    ensures
        r is Ok,
        final(dev).dma_mask == mask,
        final(dev).coherent_dma_mask == old(dev).coherent_dma_mask,
        final(dev).name == old(dev).name && final(dev).driver == old(dev).driver && final(dev).bus == old(dev).bus,
{
    dev.dma_mask = mask;
    Ok(())
}

/// Sets the device's coherent DMA mask (always accepted).
pub fn dma_set_coherent_mask(dev: &mut Device, mask: u64) -> (r: Result<(), i32>)
    ensures
        r is Ok,
        final(dev).coherent_dma_mask == mask,
        final(dev).dma_mask == old(dev).dma_mask,
        final(dev).name == old(dev).name && final(dev).driver == old(dev).driver && final(dev).bus == old(dev).bus,
{
    dev.coherent_dma_mask = mask;
    Ok(())
}

} // verus!
