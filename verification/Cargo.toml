[package]
name = "pubsub_bench"
version = "0.1.0"
edition = "2021"
publish = false

[dependencies]
async-std = "1"
flume = "*"
futures = "0.3"
serde = { version = "1", features = ["derive"] }
serde_json = "1"
zenoh = { version = "*", default-features = false }
