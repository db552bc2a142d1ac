[package]
name = "rootsmith"
version = "0.1.0"
edition = "2021"
publish = false

[dependencies]
anyhow = "*"
blake3 = "*"
clap = { version = "*", features = ["derive"] }
crossbeam-channel = "*"
hex = "*"
kanal = "*"
monotree = "*"
rs_merkle = "*"
serde = { version = "*", features = ["derive"] }
serde_json = "*"
tokio = { version = "*", features = ["rt-multi-thread", "macros", "time", "sync"] }
toml = "*"
tracing = "*"
uuid = { version = "*", features = ["v4"] }
