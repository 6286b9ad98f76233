[package]
name = "rustconn"
version = "0.1.0"
edition = "2021"
publish = false

[dependencies]
uuid = { version = "1", features = ["v4"] }
dirs = "*"
secrecy = "0.10"
zeroize = "1"
