[package]
name = "llm_api"
version = "0.1.0"
edition = "2021"
publish = false

[dependencies]
serde_json = { version = "1", features = ["preserve_order"] }
serde = { version = "1", features = ["derive"] }
http = "1"
bytes = "1"
futures-core = "0.3"
