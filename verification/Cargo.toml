[package]
name = "chat_relay"
version = "0.1.0"
edition = "2021"
publish = false

[dependencies]
serde_json = "1"
axum = { version = "*", features = ["ws"] }
tokio = { version = "1", features = ["macros", "net", "rt-multi-thread", "sync"] }
futures-util = "0.3"
