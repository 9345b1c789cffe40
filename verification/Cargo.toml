[package]
name = "chat_relay"
version = "0.1.0"
edition = "2021"
publish = false

[dependencies]
async-std = "1"
futures-channel = { version = "0.3", features = ["sink"] }
futures-util = { version = "0.3", features = ["io", "sink"] }
