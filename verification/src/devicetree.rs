//! Boot-time view of the flattened device tree: its header check, and the
//! discovery of the UART, timer and interrupt controller from it.
use vstd::prelude::*;
use crate::error::KernelError;
use crate::of::cells::{be32, read_be32};

verus! {

/// The magic number that opens a flattened device tree.
pub const FDT_MAGIC: u32 = 0xd00dfeed;

/// A node as discovery reads it.
#[derive(Debug, Clone, Copy)]
pub struct DeviceNode {
    pub name: &'static str,
    pub compatible: Option<&'static str>,
    /// Address and size.
    pub reg: Option<(u64, u64)>,
    pub interrupts: Option<u32>,
}

/// A flattened device tree in memory: where it starts and how large it is.
pub struct DeviceTree {
    base: usize,
    size: usize,
}

impl DeviceTree {
    /// The tree's start address.
    pub closed spec fn spec_base(&self) -> usize {
        self.base
    }

    /// The tree's size.
    pub closed spec fn spec_size(&self) -> usize {
        self.size
    }

    /// The tree at `base` whose header (read from there, at least 8 bytes,
    /// big-endian) is `header`: its size is the header's `totalsize`.
    /// `InvalidParameter` when the magic number is wrong.
    pub fn from_ptr(base: usize, header: &[u8]) -> (r: Result<DeviceTree, KernelError>)
        requires
            header@.len() >= 8,
        ensures
            be32(header@, 0) != FDT_MAGIC ==> r == Err::<DeviceTree, KernelError>(KernelError::InvalidParameter("Invalid FDT magic")),
            be32(header@, 0) == FDT_MAGIC ==> r is Ok && r.unwrap().spec_base() == base
                && r.unwrap().spec_size() == be32(header@, 4) as usize,
    {
        if read_be32(header, 0) != FDT_MAGIC {
            return Err(KernelError::InvalidParameter("Invalid FDT magic"));
        }
        let size = read_be32(header, 4) as usize;
        Ok(DeviceTree { base, size })
    }

    /// The node compatible with `compatible`; node lookup is not available
    /// on this view, so none is found.
    pub fn find_compatible(&self, compatible: &str) -> (r: Option<DeviceNode>)
        ensures
            r is None,
    {
        None
    }

    /// The node at `path`; none is found (see `find_compatible`).
    pub fn find_node(&self, path: &str) -> (r: Option<DeviceNode>)
        ensures
            r is None,
    {
        None
    }

    /// The memory regions; none are listed.
    pub fn memory_regions(&self) -> (r: &[(u64, u64)])
        ensures
            r@.len() == 0,
    {
        &[]
    }

    /// The `/chosen` node; none is found.
    pub fn chosen(&self) -> (r: Option<DeviceNode>)
        ensures
            r is None,
    {
        None
    }

    /// The tree's start address.
    pub fn base(&self) -> (b: usize)
        ensures
            b == self.spec_base(),
    {
        self.base
    }

    /// The tree's size.
    pub fn size(&self) -> (s: usize)
        ensures
            s == self.spec_size(),
    {
        self.size
    }
}

/// Platform devices found in the tree.
pub struct DeviceDiscovery {
    uart_base: Option<usize>,
    timer_freq: Option<u32>,
    gic_dist_base: Option<usize>,
    gic_cpu_base: Option<usize>,
}

impl DeviceDiscovery {
    /// What was found: UART base, timer frequency, GIC bases.
    pub closed spec fn found(&self) -> (Option<usize>, Option<u32>, Option<usize>, Option<usize>) {
        (self.uart_base, self.timer_freq, self.gic_dist_base, self.gic_cpu_base)
    }

    /// Nothing found yet.
    pub fn new() -> (d: DeviceDiscovery)
        ensures
            d.found() == (None::<usize>, None::<u32>, None::<usize>, None::<usize>),
    {
        DeviceDiscovery { uart_base: None, timer_freq: None, gic_dist_base: None, gic_cpu_base: None }
    }

    /// Looks for a PL011 UART (its `reg` address), a `/timer` node (24 MHz)
    /// and a GICv3 (distributor at its `reg` address, CPU interface 64 KiB
    /// above). Node lookup finds nothing on this view, so nothing changes.
    pub fn discover(&mut self, dt: &DeviceTree) -> (r: Result<(), KernelError>)
        ensures
            r is Ok,
            final(self).found() == old(self).found(),
    {
        if let Some(node) = dt.find_compatible("arm,pl011") {
            if let Some((addr, _size)) = node.reg {
                self.uart_base = Some(addr as usize);
            }
        }
        if let Some(_node) = dt.find_node("/timer") {
            self.timer_freq = Some(24_000_000);
        }
        if let Some(node) = dt.find_compatible("arm,gic-v3") {
            if let Some((addr, _size)) = node.reg {
                if addr <= u64::MAX - 0x10000 {
                    self.gic_dist_base = Some(addr as usize);
                    self.gic_cpu_base = Some((addr + 0x10000) as usize);
                }
            }
        }
        Ok(())
    }

    /// The UART's base address, if found.
    pub fn uart_base(&self) -> (r: Option<usize>)
        ensures
            r == self.found().0,
    {
        self.uart_base
    }

    /// The timer's frequency, if found.
    pub fn timer_freq(&self) -> (r: Option<u32>)
        ensures
            r == self.found().1,
    {
        self.timer_freq
    }

    /// The GIC distributor's base address, if found.
    pub fn gic_dist_base(&self) -> (r: Option<usize>)
        ensures
            r == self.found().2,
    {
        self.gic_dist_base
    }

    /// The GIC CPU interface's base address, if found.
    pub fn gic_cpu_base(&self) -> (r: Option<usize>)
        ensures
            r == self.found().3,
    {
        self.gic_cpu_base
    }
}

} // verus!
