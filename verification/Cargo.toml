[package]
name = "bifrost"
version = "0.1.0"
edition = "2021"
publish = false

[dependencies]
serde = { version = "1", features = ["derive"] }
serde_json = "1"
ring = "0.17"
base64 = "0.22"
lru = "*"
dashmap = "6"
parking_lot = "0.12"
prost = "0.13"
toml = "0.8"
chrono = "0.4"
url = "2"
uuid = { version = "1", features = ["v4"] }
tokio = { version = "1", features = ["full"] }
tokio-tungstenite = "*"
futures-util = "0.3"
reqwest = { version = "0.12", default-features = false, features = ["json", "multipart"] }
async-trait = "0.1"
once_cell = "1"
nix = { version = "0.29", features = ["signal", "process"] }
tracing = "0.1"
