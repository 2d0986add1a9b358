[package]
name = "atomcode_harness"
version = "0.1.0"
edition = "2021"
publish = false

[dependencies]
async-trait = "0.1"
crossterm = { version = "0.28", features = ["event-stream"] }
futures = "0.3"
serde = { version = "1", features = ["derive"] }
serde_json = "1"
tokio = { version = "1", features = ["rt", "rt-multi-thread", "macros", "io-util", "io-std", "sync", "time"] }
