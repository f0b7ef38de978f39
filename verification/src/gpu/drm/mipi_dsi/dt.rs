//! DSI packet data types.
use vstd::prelude::*;

verus! {

pub const VSYNC_START: u8 = 0x01;
pub const VSYNC_END: u8 = 0x11;
pub const HSYNC_START: u8 = 0x21;
pub const HSYNC_END: u8 = 0x31;
pub const EOT_PACKET: u8 = 0x08;
pub const DCS_SHORT_W_0P: u8 = 0x05;
pub const DCS_SHORT_W_1P: u8 = 0x15;
pub const DCS_LONG_W: u8 = 0x39;
pub const DCS_READ_0P: u8 = 0x06;
pub const SET_MAX_RTN: u8 = 0x37;
pub const GENERIC_SHORT_W0: u8 = 0x03;
pub const GENERIC_LONG_W: u8 = 0x29;

} // verus!
