[package]
name = "project_brain"
version = "0.1.0"
edition = "2021"
publish = false

[dependencies]
atomic-write-file = "*"
clap = { version = "4", features = ["derive"] }
fs2 = "*"
processkit = "*"
rusqlite = { version = "*", features = ["bundled"] }
serde = { version = "1", features = ["derive"] }
serde_json = "1"
sha2 = "0.10"
thiserror = "2"
tokio = { version = "1", features = ["rt", "io-util", "time"] }
