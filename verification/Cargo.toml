[package]
name = "agent_core"
version = "0.1.0"
edition = "2021"
publish = false

[dependencies]
anyhow = "1"
async-trait = "0.1"
futures = "0.3"
gcp_auth = "0.12"
reqwest = { version = "0.12", default-features = false, features = ["json", "stream"] }
serde_json = "1"
tokio = { version = "1", features = ["rt", "macros", "sync", "time"] }
tokio-retry2 = { version = "*", features = ["jitter"] }
tokio-util = "0.7"
