[package]
name = "swap-market-data"
version = "0.1.0"
edition = "2021"
publish = false

[dependencies]
anyhow = "1"
axum = "0.7"
chrono = { version = "0.4", features = ["serde"] }
clap = { version = "4", features = ["derive", "env"] }
data-encoding = "2"
futures = "0.3"
libp2p = { version = "0.53.2", default-features = false, features = ["dns", "ed25519", "identify", "macros", "noise", "ping", "tcp", "tokio", "websocket", "yamux"] }
rustls = { version = "0.23", default-features = false, features = ["ring", "std"] }
semver = "1"
serde = { version = "1", features = ["derive"] }
tokio = { version = "1", features = ["io-util", "macros", "net", "rt-multi-thread", "sync"] }
tower-http = { version = "0.6", features = ["cors"] }
tracing = "0.1"
tracing-subscriber = { version = "0.3", features = ["env-filter"] }

[dev-dependencies]
serde_json = "1"
