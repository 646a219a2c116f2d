[package]
name = "extension_version_watcher"
version = "0.1.0"
edition = "2021"
publish = false

[dependencies]
anyhow = "*"
futures-util = "*"
reqwest = { version = "*", default-features = false }
serde = { version = "*", features = ["derive"] }
serde_json = "*"
tokio = { version = "*", features = ["macros", "rt-multi-thread", "fs", "process", "sync"] }
toml = "*"
tracing = "*"
tracing-subscriber = "*"
twilight-http = { version = "*", default-features = false }
twilight-model = "*"
walkdir = "*"
xml-rs = "*"
