[package]
name = "mudae_core"
version = "0.1.0"
edition = "2021"
publish = false

[dependencies]
chrono = "=0.4.45"
rand = "=0.8.8"
tokio = { version = "=1.53.2", features = ["rt-multi-thread", "macros", "sync", "time", "fs"] }
anyhow = "=1.0.104"
serde_json = "=1.0.151"
reqwest = { version = "=0.12.28", default-features = false, features = ["json", "rustls-tls"] }
serenity_self = "*"
