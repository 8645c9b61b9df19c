[package]
name = "android-computer-use-mcp"
version = "0.1.0"
edition = "2021"
publish = false

[dependencies]
roxmltree = "0.20"
zip = { version = "2", default-features = false, features = ["deflate"] }
sha2 = "0.10"
serde = { version = "1", features = ["derive"] }
serde_json = "1"
schemars = "0.8"
clap = { version = "4", features = ["derive"] }
tokio = { version = "1", features = ["rt-multi-thread", "macros", "process", "time", "fs", "io-util"] }
anyhow = "1"
chrono = { version = "0.4", default-features = false, features = ["clock", "std"] }
base64 = "0.22"
tracing = "0.1"
tracing-subscriber = { version = "0.3", features = ["env-filter"] }
