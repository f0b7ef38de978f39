//! The driver model: devices with reference counts, drivers, buses that
//! bind the two, and the platform bus.
pub mod resource;
pub mod device;
pub mod bus;
pub mod driver;
pub mod platform;
