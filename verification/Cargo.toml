[package]
name = "hyper_byte"
version = "0.1.0"
edition = "2021"
publish = false

[dependencies]
half = "*"
tokio = { version = "*", features = ["io-util"] }
