//! Clock framework: the clock tree and consumer API, the standard provider
//! types, and Device Tree integration.
pub mod clk_flags;
pub mod framework;
pub mod mmio;
pub mod of;
pub mod provider;
pub mod rate;
pub mod laws;
