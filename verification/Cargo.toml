[package]
name = "execlaw_server"
version = "0.1.0"
edition = "2021"
publish = false

[dependencies]
async-trait = "0.1"
axum = "0.8"
chrono = "0.4"
dashmap = "6"
futures = "0.3"
jsonwebtoken = { version = "10", default-features = false, features = ["rust_crypto", "use_pem"] }
serde = { version = "1", features = ["derive"] }
serde_json = "1"
tokio = { version = "1", features = ["rt", "rt-multi-thread", "macros", "sync", "time", "fs"] }
tokio-util = "0.7"
tracing = "0.1"
uuid = { version = "1", features = ["v4"] }
