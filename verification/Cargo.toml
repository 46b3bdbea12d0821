[package]
name = "vm8"
version = "0.1.0"
edition = "2021"
publish = false

[dependencies]
byteorder = "1"
num-traits = "0.2"
time = "0.1"
