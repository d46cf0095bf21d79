[package]
name = "fischl"
version = "0.1.0"
edition = "2021"
publish = false

[dependencies]
reqwest = { version = "0.12", features = ["stream", "native-tls", "blocking"] }
reqwest-middleware = "0.4"
reqwest-retry = "0.7"
futures-util = "0.3"
serde = { version = "1", features = ["derive"] }
thiserror = "2"
tokio = { version = "1", features = ["full"] }
sysinfo = "*"
wincompatlib = "*"
