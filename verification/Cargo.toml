[package]
name = "hedge"
version = "0.1.0"
edition = "2021"
publish = false

[dependencies]
anyhow = "1"
bytes = "1"
chrono = "0.4"
dashmap = "6"
futures = "0.3"
once_cell = "1"
opentelemetry = "0.24"
opentelemetry-otlp = "0.17"
opentelemetry_sdk = { version = "0.24", features = ["rt-tokio"] }
parking_lot = "0.12"
prometheus = { version = "0.13", default-features = false }
quanta = "0.12"
rand = "0.8"
rand_chacha = "0.3"
redis = { version = "0.27", default-features = false, features = ["streams", "aio", "tokio-comp"] }
reqwest = { version = "0.12", default-features = false, features = ["json"] }
rkyv = { version = "0.7", features = ["validation"] }
serde = { version = "1", features = ["derive"] }
serde_json = "1"
smallvec = "1"
thiserror = "1"
tokio = { version = "1", features = ["rt-multi-thread", "macros", "sync", "time"] }
tokio-tungstenite = "0.24"
tracing = "0.1"
tracing-subscriber = { version = "0.3", features = ["env-filter", "json"] }
