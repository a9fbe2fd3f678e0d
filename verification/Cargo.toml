[package]
name = "p2pchat"
version = "0.1.0"
edition = "2021"
publish = false

[dependencies]
directories = "*"
futures = "*"
libp2p = { version = "*", default-features = false, features = ["tokio", "tcp", "noise", "yamux", "mdns", "request-response", "macros", "ed25519"] }
serde = { version = "*", features = ["derive"] }
serde_json = "*"
tokio = { version = "*", features = ["rt-multi-thread", "macros", "sync", "io-std", "io-util", "fs", "net", "time"] }
tracing-subscriber = "*"
uuid = { version = "*", features = ["v4"] }
