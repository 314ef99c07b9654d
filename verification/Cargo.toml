[package]
name = "pi-acp"
version = "0.1.0"
edition = "2021"
publish = false

[dependencies]
agent-client-protocol = { version = "=2.0.0", features = ["unstable_protocol_v2"] }
agent-client-protocol-schema = { version = "=1.5.0", features = ["unstable_protocol_v2"] }
anyhow = "=1.0.104"
dirs = "=7.0.0"
serde = { version = "=1.0.229", features = ["derive"] }
serde_json = { version = "=1.0.154", features = ["preserve_order"] }
tokio = { version = "=1.54.1", features = ["full"] }
tracing = "=0.1.44"
tracing-subscriber = { version = "=0.3.23", features = ["env-filter"] }
