//! Sync and scan flags of a display mode.
use vstd::prelude::*;

verus! {

pub const NHSYNC: u32 = 0x1;
pub const PHSYNC: u32 = 0x2;
pub const NVSYNC: u32 = 0x4;
pub const PVSYNC: u32 = 0x8;
pub const INTERLACE: u32 = 0x10;
pub const DBLSCAN: u32 = 0x20;

} // verus!
