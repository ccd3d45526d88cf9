[package]
name = "rag_parsing"
version = "0.1.0"
edition = "2021"
publish = false

[dependencies]
anyhow = "=1.0.104"
clap = { version = "=4.6.7", features = ["derive"] }
dirs = "=5.0.1"
fastembed = { version = "=4.9.1", default-features = false, features = ["ort-load-dynamic", "hf-hub-native-tls"] }
reqwest = { version = "=0.12.28", features = ["blocking", "json"] }
serde = { version = "=1.0.229", features = ["derive"] }
serde_json = "=1.0.154"
serde_yaml = "=0.9.34"
walkdir = "=2.5.0"
