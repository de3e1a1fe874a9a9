[package]
name = "market_ingest"
version = "0.1.0"
edition = "2021"
publish = false

[dependencies]
serde_json = "1"
chrono = { version = "0.4", default-features = false, features = ["clock"] }
tokio = { version = "1", features = ["rt-multi-thread", "macros", "time", "sync"] }
tokio-tungstenite = "0.24"
futures-util = "0.3"
url = "2"
sqlx = { version = "0.8", default-features = false, features = ["postgres", "runtime-tokio"] }
reqwest = { version = "0.12", default-features = false }
dotenvy = "0.15"
