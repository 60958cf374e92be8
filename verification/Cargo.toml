[package]
name = "nexus"
version = "0.1.0"
edition = "2021"
publish = false

[dependencies]
serde_json = "1"
uuid = "1"
serde = { version = "1", features = ["derive"] }
chrono = "0.4"
anyhow = "1"
tracing = "0.1"
reqwest = { version = "*", default-features = false, features = ["json"] }
axum = "*"
