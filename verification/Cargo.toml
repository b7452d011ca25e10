[package]
name = "mspdb"
version = "0.1.0"
edition = "2021"
publish = false

[dependencies]
bitvec = "1"

[dev-dependencies]
bstr = "=1.13.1"
