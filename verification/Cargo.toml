[package]
name = "slogx"
version = "0.1.0"
edition = "2021"
publish = false

[dependencies]
backtrace = "*"
chrono = "*"
futures-util = { version = "*", features = ["sink"] }
serde = { version = "*", features = ["derive"] }
serde_json = "*"
tokio = { version = "*", features = ["net", "sync", "rt", "rt-multi-thread", "time", "macros"] }
tokio-tungstenite = "*"
uuid = { version = "*", features = ["v4"] }
