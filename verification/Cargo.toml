[package]
name = "peer_chat"
version = "0.1.0"
edition = "2021"
publish = false

[dependencies]
anyhow = "1"
clap = { version = "4", features = ["derive"] }
futures = "0.3"
iroh-base = { version = "0.28", features = ["key"] }
rand = "0.8"
tokio = { version = "1", features = ["io-std", "io-util", "macros", "rt-multi-thread", "time"] }
tracing = "0.1"
tracing-subscriber = "0.3"
zbase32 = "0.1"

[dev-dependencies]
postcard = { version = "1", features = ["use-std"] }
