[package]
name = "deepsight"
version = "0.1.0"
edition = "2021"
publish = false

[dependencies]
anyhow = "=1.0.104"
regex = "=1.13.1"
serde = { version = "=1.0.229", features = ["derive"] }
serde_json = "=1.0.154"
sysinfo = "=0.33.1"
tokio = { version = "=1.54.1", features = ["rt-multi-thread", "macros", "process", "io-util", "sync"] }
unicode-normalization = "=0.1.26"
uuid = { version = "=1.29.0", features = ["v4"] }
