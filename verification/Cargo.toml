[package]
name = "lez_events"
version = "0.1.0"
edition = "2021"
publish = false

[dependencies]
anyhow = "1"
borsh = "1"
chrono = "0.4"
clap = { version = "4", features = ["derive"] }
jsonrpsee = { version = "0.26", features = ["ws-client"] }
serde = { version = "1", features = ["derive"] }
serde_json = "1"
tempfile = "3"
tokio = { version = "1", features = ["macros", "net", "rt-multi-thread", "time"] }
