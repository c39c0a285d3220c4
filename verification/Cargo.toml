[package]
name = "df_forum"
version = "0.1.0"
edition = "2021"
publish = false

[dependencies]
tokio = { version = "*", features = ["rt-multi-thread", "macros", "net", "sync", "io-util"] }
tokio-tungstenite = "*"
futures-channel = "*"
futures-util = "*"
serde = { version = "*", features = ["derive"] }
serde_json = "*"
