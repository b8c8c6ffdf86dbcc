[package]
name = "gpt"
version = "0.1.0"
edition = "2021"
publish = false

[dependencies]
crc = "3"
log = "0.4"
simple-bytes = "*"
uuid = { version = "1", features = ["v4"] }
