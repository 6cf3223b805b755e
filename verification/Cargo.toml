[package]
name = "booking_broker"
version = "0.1.0"
edition = "2021"
publish = false

[dependencies]
anyhow = "*"
async-trait = "*"
bincode = "1"
chrono = "*"
clap = { version = "*", features = ["derive"] }
futures = "*"
libp2p = { version = "*", features = ["tokio", "tcp", "noise", "yamux", "mdns", "kad", "ping", "identify", "request-response", "macros"] }
rand = "*"
reqwest = { version = "*", default-features = false }
rusqlite = { version = "*", features = ["bundled"] }
serde = { version = "*", features = ["derive"] }
serde_json = "*"
sled = "*"
tokio = { version = "*", features = ["rt-multi-thread", "macros", "time", "sync", "signal", "net", "io-util"] }
toml = "*"
tracing = "*"
tracing-subscriber = "*"
uuid = { version = "*", features = ["v4"] }
