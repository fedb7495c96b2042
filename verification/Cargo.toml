[package]
name = "podnum"
version = "0.1.0"
edition = "2021"
publish = false

[dependencies]
axum = "=0.6.20"
bincode = "=1.3.3"
clap = { version = "=4.6.7", features = ["derive"] }
commitlog = "=0.2.0"
omnipaxos = { version = "=0.2.2", features = ["serde"] }
omnipaxos_storage = "=0.2.2"
serde = { version = "=1.0.229", features = ["derive"] }
sled = "=0.34.7"
tokio = { version = "=1.54.1", features = ["full"] }
tracing = "=0.1.44"
tracing-subscriber = "=0.3.23"
