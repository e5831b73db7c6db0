[package]
name = "virt_tdp"
version = "0.1.0"
edition = "2021"
publish = false

[dependencies]
anyhow = "1"
libc = "0.2"
parking_lot = "0.12"
thiserror = "2"
tracing = "0.1"
