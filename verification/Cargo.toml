[package]
name = "decman"
version = "0.1.0"
edition = "2021"
publish = false

[dependencies]
actix-cors = "0.7"
actix-web = { version = "4", default-features = false, features = ["macros"] }
anyhow = "1"
clap = { version = "4", features = ["derive", "env"] }
dotenvy = "0.15"
futures = "0.3"
hex = "=0.4.3"
hyper = { version = "=0.14.32", features = ["http1", "server"] }
hyper-noise = "=0.0.3"
reqwest = { version = "=0.12.28", default-features = false, features = ["json", "rustls-tls"] }
secp256k1 = "=0.29.1"
serde = { version = "1", features = ["derive"] }
serde_json = "=1.0.154"
thiserror = "1"
tokio = { version = "1", features = ["macros", "net", "rt-multi-thread", "sync", "time"] }
tokio-noise = "=0.0.5"
tracing = "0.1"
tracing-subscriber = { version = "0.3", features = ["env-filter", "json"] }
