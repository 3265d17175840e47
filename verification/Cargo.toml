[package]
name = "xiao_stream"
version = "0.1.0"
edition = "2021"
publish = false

[dependencies]
hmac = "0.12"
sha2 = "0.10"
rand = "0.8"
opus = "0.3"
tokio = { version = "1", features = ["full"] }
tokio-util = "0.7"
