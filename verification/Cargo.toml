[package]
name = "mullvad_rpc"
version = "0.1.0"
edition = "2021"
publish = false

[dependencies]
futures = "0.3"
http = "*"
serde = { version = "*", features = ["derive"] }
serde_json = "*"
tokio = { version = "*", features = ["rt", "time", "sync"] }
