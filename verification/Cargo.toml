[package]
name = "blazing_agi"
version = "0.1.0"
edition = "2021"
publish = false

[dependencies]
url = "2"
tokio = { version = "1", features = ["net", "io-util", "rt"] }
async-trait = "0.1"
tracing = "0.1"
