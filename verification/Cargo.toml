[package]
name = "rag_core"
version = "0.1.0"
edition = "2021"
publish = false

[dependencies]
text-splitter = "=0.33.0"
pulldown-cmark = "=0.13.4"
serde_yaml = "=0.9.34"
chrono = "=0.4.45"
uuid = { version = "=1.27.0", features = ["v4"] }
axum = { version = "=0.8.9", features = ["multipart"] }
tokio = { version = "=1.53.2", features = ["rt-multi-thread", "macros", "sync", "net"] }
futures = "*"
serde = { version = "*", features = ["derive"] }
serde_json = "*"
thiserror = "*"
async-stream = "*"
tokio-stream = "*"
tower-http = { version = "*", features = ["cors"] }
tracing = "*"
tracing-subscriber = "*"
dotenv = "*"
meilisearch-sdk = "=0.33.0"
async-openai = { version = "=0.42.1", features = ["chat-completion", "embedding"] }
reqwest = "*"
