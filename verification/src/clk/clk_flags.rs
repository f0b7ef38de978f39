//! Capability and state bits of a clock (`ClkCore::flags`).
use vstd::prelude::*;

verus! {

/// Clock rate cannot be changed by software.
pub const FIXED_RATE: u32 = 1;
/// Clock can gate (be stopped) independently.
pub const IS_GATABLE: u32 = 2;
/// Rate change requires parent to be disabled first.
pub const SET_RATE_PARENT: u32 = 4;
/// Clock is critical: it must never be gated.
pub const IS_CRITICAL: u32 = 8;
/// Currently prepared (resources allocated).
pub const PREPARED: u32 = 16;
/// Currently enabled (hardware running).
pub const ENABLED: u32 = 32;

} // verus!
