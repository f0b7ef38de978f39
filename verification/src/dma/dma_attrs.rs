//! Attribute bits of DMA allocations and mappings.
use vstd::prelude::*;

verus! {

pub const WRITE_BARRIER: u64 = 0x1;
pub const WEAK_ORDERING: u64 = 0x2;
pub const WRITE_COMBINE: u64 = 0x4;
pub const NON_CONSISTENT: u64 = 0x8;
pub const NO_KERNEL_MAPPING: u64 = 0x10;
pub const SKIP_CPU_SYNC: u64 = 0x20;

} // verus!
