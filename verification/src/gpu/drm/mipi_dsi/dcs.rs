//! Display Command Set opcodes.
use vstd::prelude::*;

verus! {

pub const NOP: u8 = 0x00;
pub const SOFT_RESET: u8 = 0x01;
pub const GET_POWER_MODE: u8 = 0x0A;
pub const GET_ADDRESS_MODE: u8 = 0x0B;
pub const ENTER_SLEEP_MODE: u8 = 0x10;
pub const EXIT_SLEEP_MODE: u8 = 0x11;
pub const ENTER_PARTIAL_MODE: u8 = 0x12;
pub const ENTER_NORMAL_MODE: u8 = 0x13;
pub const SET_DISPLAY_OFF: u8 = 0x28;
pub const SET_DISPLAY_ON: u8 = 0x29;
pub const SET_COLUMN_ADDRESS: u8 = 0x2A;
pub const SET_PAGE_ADDRESS: u8 = 0x2B;
pub const WRITE_MEMORY_START: u8 = 0x2C;
pub const SET_PIXEL_FORMAT: u8 = 0x3A;
pub const SET_SCROLL_START: u8 = 0x37;
pub const WRITE_CTRL_DISPLAY: u8 = 0x53;
pub const SET_BRIGHTNESS: u8 = 0x51;

} // verus!
