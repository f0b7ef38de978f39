//! Verified driver-model library for the STAR OS kernel: device-tree parsing,
//! the driver core, clocks, DMA, display, media and bus subsystems.
pub mod error;
pub mod text;
pub mod clk;
pub mod bluetooth;
pub mod of;
pub mod base;
pub mod gpu;
pub mod i2c;
pub mod dma;
pub mod media;
pub mod devicetree;
pub mod traits;
pub mod bus;
pub mod driver_manager;
pub mod bus_scanner;
pub mod display;
pub mod gpio;
pub mod mock;
pub mod dt_integration;
pub mod pmic;
pub mod modem;
pub mod audio;
pub mod wireless;
pub mod linux_compat;
pub mod examples;
pub mod laws;
