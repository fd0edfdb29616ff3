[package]
name = "scotch"
version = "0.1.0"
edition = "2021"
publish = false

[dependencies]
wasmer = "=6.1.0"
bincode = "=2.0.1"
flate2 = "=1.1.10"
parking_lot = "=0.12.5"
syn = { version = "=1.0.109", features = ["full"] }
quote = "=1.0.47"
proc-macro2 = "=1.0.107"
