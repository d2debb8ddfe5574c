//! Hardware abstraction layer for the Renesas RA4M1: clock set-up and the USB full-speed device
//! controller.

pub mod bits;
pub mod boot;
pub mod cdc;
pub mod clocks;
pub mod mmio;
pub mod pll;
pub mod summary;
pub mod trace;
pub mod usb;

pub use clocks::{clock_config, init, print_clock_config, ClockConfig, ResetCause};
