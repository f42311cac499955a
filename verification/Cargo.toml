[package]
name = "orbshred"
version = "0.1.0"
edition = "2021"
publish = false

[dependencies]
anyhow = "1"
bs58 = "0.5"
chrono = "0.4"
dashmap = "6"
ed25519-dalek = "2"
futures = "0.3"
libc = "0.2"
prost = "0.13"
prost-types = "0.13"
serde_json = "1"
socket2 = "0.5"
tokio = { version = "1", features = ["rt-multi-thread", "sync", "time", "macros"] }
tokio-util = "0.7"
tonic = { version = "0.12", features = ["tls", "tls-native-roots"] }
tracing = "0.1"
