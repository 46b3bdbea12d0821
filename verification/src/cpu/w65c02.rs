//! The Western Design Center W65C02, an 8-bit CPU with a 16-bit address bus.
pub mod addr;
pub mod bus;
pub mod cpu;
pub mod flags;
pub mod inst;

pub use bus::{Bus, FakeBus};
pub use cpu::CPU;
