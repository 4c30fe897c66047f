[package]
name = "chat"
version = "0.1.0"
edition = "2021"
publish = false

[dependencies]
slug = "*"
tokio = { version = "*", features = ["net", "rt-multi-thread", "macros", "io-util", "sync", "fs"] }
