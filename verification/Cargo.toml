[package]
name = "ashv2"
version = "0.1.0"
edition = "2021"
publish = false

[dependencies]
heapless = "0.8"
itertools = "0.13"
serialport = { version = "4", default-features = false }
log = "0.4"
