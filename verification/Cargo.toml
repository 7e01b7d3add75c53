[package]
name = "moltis"
version = "0.1.0"
edition = "2021"
publish = false

[dependencies]
anyhow = "1"
async-trait = "*"
bytes = "1"
ipnet = "2"
reqwest = { version = "*", default-features = false, features = ["json", "multipart"] }
serde = { version = "1", features = ["derive"] }
serde_json = "1"
tokio = { version = "1", features = ["process", "fs", "net", "rt", "macros"] }
url = "2"
