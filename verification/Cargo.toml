[package]
name = "memguard"
version = "0.1.0"
edition = "2021"
publish = false

[dependencies]
async-trait = "0.1"
chrono = "0.4"
futures = "0.3"
http-body-util = "0.1"
hyper = { version = "1", features = ["client", "http1"] }
hyper-util = { version = "0.1", features = ["client-legacy", "http1", "tokio"] }
log = "0.4"
serde_json = "1"
tokio = { version = "1", features = ["fs", "macros", "rt", "sync", "time"] }
