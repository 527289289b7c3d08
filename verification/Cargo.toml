[package]
name = "crush_core"
version = "0.1.0"
edition = "2021"
publish = false

[dependencies]
chrono = { version = "=0.4.45", default-features = false, features = ["std"] }
serde_json = { version = "=1.0.151", features = ["preserve_order"] }
