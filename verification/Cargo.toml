[package]
name = "unimotion_rs"
version = "0.1.0"
edition = "2021"
publish = false

[dependencies]
base64 = "*"
crossbeam-channel = "*"
macaddr = "*"
serialport = { version = "*", default-features = false }
