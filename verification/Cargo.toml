[package]
name = "mango_core"
version = "0.1.0"
edition = "2021"
publish = false

[dependencies]
sha2 = "0.10"
slug = "0.1"
serde = { version = "1", features = ["derive"] }
serde_json = "1"
thiserror = "2"
keyring-core = "*"
chrono = "0.4"
uuid = { version = "1", features = ["v4"] }
