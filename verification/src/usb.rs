//! Universal Serial Bus full-speed device support (`USBFS`).
//!
//! [`Driver`] works the peripheral and its interrupt, [`Bus`] is what a USB stack builds on.

pub mod bus;
pub mod captured;
pub mod driver;
pub mod endpoint;
pub mod latch;
pub mod regs;
pub mod started;
pub mod types;
pub mod waits;

pub use crate::mmio::Instance;
pub use bus::Bus;
pub use driver::{Config, Driver, InterruptHandler};
pub use types::{BusState, Error, PipeBinding, UsbEventSnapshot, UsbIrqEvent, UsbIrqLocalState};
