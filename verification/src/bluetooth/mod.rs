//! Bluetooth controller transports: H4 framing, and the UART, Qualcomm and
//! USB controller drivers.
pub mod h4;
pub mod hci_uart;
pub mod btqca;
pub mod btusb;
