[package]
name = "clauchat"
version = "0.1.0"
edition = "2021"
publish = false

[dependencies]
serde_json = "*"
tiktoken-rs = "*"
serde = { version = "*", features = ["derive"] }
reqwest = { version = "*", default-features = false, features = ["json", "stream", "rustls-tls"] }
tokio = { version = "*", features = ["rt-multi-thread", "macros", "sync", "io-util", "time"] }
tokio-stream = { version = "*", features = ["io-util"] }
tokio-util = { version = "*", features = ["io"] }
futures-util = "*"
anyhow = "*"
dirs = "*"
log = "*"
env_logger = "*"
dotenv = "*"
