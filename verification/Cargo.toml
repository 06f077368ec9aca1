[package]
name = "credential_pool"
version = "0.1.0"
edition = "2021"
publish = false

[dependencies]
serde_json = "1"
axum = { version = "0.7", default-features = false, features = ["json"] }
tracing = "0.1"
