[package]
name = "stream_utils"
version = "0.1.0"
edition = "2021"
publish = false

[dependencies]
bytes = "1"
crossfire = "*"
futures = "0.3"
kanal = "*"
reqwest = { version = "0.12", default-features = false, features = ["rustls-tls", "stream"] }
serde = { version = "1", features = ["derive"] }
serde_json = "1"
thiserror = "2"
tokio = { version = "1", features = ["io-util", "macros", "rt", "rt-multi-thread", "sync", "time"] }
tokio-stream = "0.1"
tokio-util = { version = "0.7", features = ["io-util"] }
