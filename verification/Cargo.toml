[package]
name = "rustcompiler"
version = "0.1.0"
edition = "2021"
publish = false

[dependencies]
axum = { version = "=0.8.9", features = ["multipart"] }
tokio = { version = "=1.53.2", features = ["macros", "rt-multi-thread", "process", "fs", "net", "sync", "time"] }
reqwest = { version = "=0.12.28", default-features = false, features = ["multipart", "json"] }
serde = { version = "=1.0.229", features = ["derive"] }
serde_json = "=1.0.151"
tower-http = { version = "=0.6.11", features = ["cors"] }
dotenv = "=0.15.0"
