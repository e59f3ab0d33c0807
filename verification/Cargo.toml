[package]
name = "ssi_agent"
version = "0.1.0"
edition = "2021"
publish = false

[dependencies]
chrono = "0.4.45"
iso8601 = "0.6.6"
jsonschema = { version = "0.60.2", default-features = false }
rand = "0.9.5"
serde = { version = "1", features = ["derive"] }
serde_json = "1"
thiserror = "2"
uuid = "1"
