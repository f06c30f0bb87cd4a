[package]
name = "autoclick-rs"
version = "0.1.0"
edition = "2021"
publish = false

[dependencies]
x11rb = { version = "0.13", features = ["xtest"] }
libc = "0.2"
sysinfo = "0.32"
crossbeam-channel = "0.5"
parking_lot = "0.12"
