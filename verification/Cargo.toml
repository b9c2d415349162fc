[package]
name = "inibin"
version = "0.1.0"
edition = "2021"
publish = false

[dependencies]
byteorder = "1"
indexmap = "2"
serde = "1"
smallvec = "1"
