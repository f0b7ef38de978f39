//! Open Firmware (device tree) support: cells, nodes and properties, the
//! flattened-tree unflattener, address and interrupt translation, and
//! platform device creation.
pub mod cells;
pub mod base;
pub mod property;
pub mod fdt;
pub mod address;
pub mod irq;
pub mod platform;
