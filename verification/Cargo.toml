[package]
name = "yap"
version = "0.1.0"
edition = "2021"
publish = false

[dependencies]
keyring = { version = "=3.6.3", features = ["apple-native"] }
hex = "=0.4.3"
anyhow = "=1.0.104"
serde = { version = "=1.0.229", features = ["derive"] }
serde_json = "=1.0.154"
dirs = "=6.0.0"
parking_lot = "=0.12.5"
crossbeam-channel = "=0.5.17"
tokio = { version = "=1.54.1", features = ["rt", "fs", "io-util"] }
reqwest = { version = "=0.12.28", default-features = false, features = ["multipart", "stream", "rustls-tls"] }
futures-util = "=0.3.34"
sha2 = "=0.10.9"
bzip2 = "=0.6.1"
tar = "=0.4.46"
rusqlite = { version = "=0.37.0", features = ["bundled"] }
tracing = "=0.1.44"
async-trait = "=0.1.92"
core-graphics = "=0.24.0"
core-foundation = "=0.10.1"
arboard = { version = "=3.7.0", default-features = false }
cpal = { version = "=0.15.3", default-features = false }
objc2 = "=0.5.3"
objc2-app-kit = "=0.2.2"
objc2-foundation = "=0.2.2"
sherpa-rs = { version = "=0.6.8", default-features = false }
