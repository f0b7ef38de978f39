//! I2C: adapters and their clients, transfers with retries, bus
//! recovery, the bit-banging algorithm and device-tree instantiation.
pub mod i2c_core;
pub mod of;
pub mod algo;
