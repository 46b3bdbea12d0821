pub mod processor;
pub mod w65c02;
pub mod w65c816;
pub mod z80;
