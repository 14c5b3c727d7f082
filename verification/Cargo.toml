[package]
name = "rpocketflow"
version = "0.1.0"
edition = "2021"
publish = false

[dependencies]
serde = { version = "1", features = ["derive"] }
serde_json = "1"
tokio = { version = "1", features = ["full"] }
async-trait = "0.1"
anthropic = "0.0.8"
thiserror = "1"
tracing = "0.1"
log = "0.4"
