[package]
name = "tiny-agent-loop"
version = "0.1.0"
edition = "2021"
publish = false

[dependencies]
async-openai = { version = "=0.43.0", features = ["chat-completion"] }
futures-util = "=0.3.34"
log = "=0.4.35"
schemars = "=1.2.3"
serde = { version = "=1.0.229", features = ["derive"] }
serde_json = "=1.0.154"
