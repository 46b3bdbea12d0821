//! Emulation of 8-bit and 16-bit microprocessors and the buses they talk to.
pub mod bus;
pub mod clock;
pub mod cpu;
pub mod utils;
