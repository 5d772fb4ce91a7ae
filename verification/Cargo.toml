[package]
name = "vk_kernel"
version = "0.1.0"
edition = "2021"
publish = false

[dependencies]
base64 = "0.22"
ed25519-dalek = "2"
hex = "0.4"
rand = "0.8"
sha2 = "0.10"
uuid = { version = "1", features = ["v4"] }
anyhow = "1"
keyring = "3"
serde = { version = "1", features = ["derive"] }
serde_json = "1"
thiserror = "2"
tokio = { version = "1", features = ["io-util", "io-std", "macros", "net", "rt", "rt-multi-thread", "sync", "time"] }
tracing = "0.1"
