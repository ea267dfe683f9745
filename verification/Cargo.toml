[package]
name = "numax_control"
version = "0.1.0"
edition = "2021"
publish = false

[dependencies]
async-trait = "0.1"
axum = { version = "=0.8.9", default-features = false, features = ["query"] }
base64 = "=0.22.1"
blake3 = { version = "=1.8.7", default-features = false, features = ["std", "pure"] }
serde = { version = "=1.0.229", features = ["derive"] }
serde_json = "=1.0.154"
tracing = "=0.1.44"
