[package]
name = "mayhem-engine"
version = "0.1.0"
edition = "2021"
publish = false

[dependencies]
serde = { version = "1", features = ["derive"] }
serde_json = "1"
base64 = "0.22"
sha2 = "0.10"
thiserror = "2"
jsonschema = { version = "*", default-features = false }
