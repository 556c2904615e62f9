[package]
name = "rig-agent"
version = "0.1.0"
edition = "2021"
publish = false

[dependencies]
async-stream = "0.3"
futures = "0.3"
http = "1"
rmcp = { version = "*", features = ["client"] }
schemars = "1"
serde = { version = "1", features = ["derive"] }
serde_json = "1"
thiserror = "2"
tracing = "0.1"
tracing-futures = { version = "0.2", features = ["futures-03"] }
