[package]
name = "ovhctl"
version = "0.1.0"
edition = "2021"
publish = false

[dependencies]
rust-crypto = "0.2"
serde = { version = "1", features = ["derive"] }
serde_json = "1"
serde_yaml = "0.9"
clap = { version = "4", features = ["derive"] }
config = "0.13"
hyper = { version = "0.14", features = ["client", "http1", "http2", "tcp"] }
hyper-tls = "0.5"
tokio = { version = "1", features = ["rt", "macros"] }
bytes = "1"
chrono = "0.4"
ipnetwork = "0.20"
prettytable-rs = "0.10"
pbr = "1"
async-trait = "0.1"
thiserror = "1"
