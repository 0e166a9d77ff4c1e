[package]
name = "pad_motion"
version = "0.1.0"
edition = "2021"
publish = false

[dependencies]
crc = "*"
crossbeam-queue = "*"
rand = "*"
