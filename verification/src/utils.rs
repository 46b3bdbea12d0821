pub mod bcd;
pub mod hex;
pub mod text;
pub mod word;
