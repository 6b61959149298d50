[package]
name = "generic_array"
version = "0.1.0"
edition = "2021"
publish = false

[dependencies]
bitvec = { version = "1", default-features = false }
const-default = { version = "1", default-features = false }
