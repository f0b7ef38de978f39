//! Capability bits of DMA devices.
use vstd::prelude::*;

verus! {

pub const MEMCPY: u32 = 0x1;
pub const XOR: u32 = 0x2;
pub const PQ: u32 = 0x4;
pub const INTERRUPT: u32 = 0x8;
pub const CYCLIC: u32 = 0x10;
pub const INTERLEAVE: u32 = 0x20;
pub const PRIVATE: u32 = 0x40;

} // verus!
