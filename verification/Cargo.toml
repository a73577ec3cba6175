[package]
name = "chanlib"
version = "0.1.0"
edition = "2021"
publish = false

[dependencies]
crossbeam-channel = "0.5"
clap = { version = "4", features = ["derive"] }
config = "*"
serde = { version = "1", features = ["derive"] }
anyhow = "1"
log = "0.4"
tokio = { version = "1", features = ["rt", "rt-multi-thread"] }
