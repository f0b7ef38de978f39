//! CSI-2 data types.
use vstd::prelude::*;

verus! {

pub const YUV422_8BIT: u8 = 0x1E;
pub const RAW8: u8 = 0x2A;
pub const RAW10: u8 = 0x2B;
pub const RAW12: u8 = 0x2C;
pub const RAW14: u8 = 0x2D;
pub const EMBEDDED_8BIT: u8 = 0x12;

} // verus!
