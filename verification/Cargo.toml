[package]
name = "chat_ingest"
version = "0.1.0"
edition = "2021"
publish = false

[dependencies]
bb8 = "0.8"
bb8-postgres = "0.8"
chrono = "0.4"
env_logger = "0.10"
log = "0.4"
regex = "1"
serde = { version = "1", features = ["derive"] }
serde_json = "1"
tokio = { version = "1", features = ["macros", "rt-multi-thread", "sync", "time"] }
tokio-postgres = { version = "0.7", features = ["with-chrono-0_4"] }
tungstenite = "0.21"
