[package]
name = "mcan_bus"
version = "0.1.0"
edition = "2021"
publish = false

[dependencies]
bitfield = "*"
