[package]
name = "pinger"
version = "0.1.0"
edition = "2021"
publish = false

[dependencies]
rand = "0.9"
thiserror = "2"
tokio = { version = "1", features = ["process", "io-util", "rt", "sync", "time", "macros"] }
async-trait = "0.1"
winping = "*"
