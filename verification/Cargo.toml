[package]
name = "nyar"
version = "0.1.0"
edition = "2021"
publish = false

[dependencies]
arcstr = "1"
indexmap = "2"
num = "0.4"
tokio = { version = "1", features = ["rt", "rt-multi-thread"] }
