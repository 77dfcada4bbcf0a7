[package]
name = "open_workspace"
version = "0.1.0"
edition = "2021"
publish = false

[dependencies]
schemars = "1"
serde = { version = "1", features = ["derive"] }
serde_json = "1"
tracing = "0.1"

[dev-dependencies]
toml = "0.8"
