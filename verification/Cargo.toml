[package]
name = "ai_agent"
version = "0.1.0"
edition = "2021"
publish = false

[dependencies]
serde = { version = "=1.0.229", features = ["derive"] }
serde_json = "=1.0.154"
uuid = { version = "=1.29.0", features = ["v4"] }
chrono = "=0.4.45"
tokio = { version = "=1.54.1", features = ["full"] }
async-trait = "=0.1.92"
anyhow = "=1.0.104"
async-openai = { version = "=0.43.0", features = ["chat-completion", "embedding"] }
backon = "=1.6.0"
schemars = "=1.2.3"
tracing = "=0.1.44"
tracing-subscriber = "=0.3.23"
dotenvy = "=0.15.7"
futures = "=0.3.34"
async-stream = "=0.3.6"
rmcp = { version = "=3.8.0", features = ["client", "transport-child-process", "transport-io"] }
reqwest = "=0.12.28"
tavily = "=2.1.0"
tiktoken-rs = "=0.12.1"
config = { version = "=0.15.27", default-features = false, features = ["toml"] }
