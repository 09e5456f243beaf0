[package]
name = "eventific"
version = "0.1.0"
edition = "2021"
publish = false

[dependencies]
tokio = { version = "1", features = ["sync", "rt", "rt-multi-thread"] }
tokio-postgres = { version = "0.7", features = ["with-uuid-1", "with-serde_json-1", "with-chrono-0_4"] }
uuid = "1"
serde = "1"
serde_json = "1"
chrono = { version = "0.4", default-features = false, features = ["std"] }
futures = "0.3"
async-trait = "0.1"
tracing = "0.1"
