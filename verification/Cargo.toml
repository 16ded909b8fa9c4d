[package]
name = "deepseek_mcp_bridge"
version = "1.0.0"
edition = "2021"
publish = false

[dependencies]
sha2 = "*"
ring = "*"
base64 = "*"
fastrand = "*"
uuid = { version = "*", features = ["v4"] }
governor = "*"
leaky-bucket = "*"
serde = { version = "*", features = ["derive"] }
serde_json = "*"
chrono = "*"
clap = { version = "*", features = ["derive"] }
anyhow = "*"
dotenvy = "*"
secrecy = "*"
tracing = "*"
tracing-subscriber = { version = "*", features = ["env-filter"] }
tokio = { version = "*", features = ["rt-multi-thread", "macros", "time", "signal", "sync", "io-std", "io-util"] }
reqwest = { version = "*", default-features = false, features = ["json", "rustls-tls"] }
