[package]
name = "dkls23"
version = "0.1.0"
edition = "2021"
publish = false

[dependencies]
base64 = "0.22"
blake3 = "1"
chrono = "0.4"
clap = { version = "4", features = ["derive", "env"] }
dashmap = "6"
hex = "0.4"
hmac = "0.12"
k256 = { version = "0.13", features = ["ecdsa", "arithmetic"] }
rand = "0.8"
reqwest = { version = "0.12", default-features = false, features = ["blocking", "json"] }
serde = { version = "1", features = ["derive"] }
serde_json = "1"
sha2 = "0.10"
thiserror = "1"
x25519-dalek = { version = "2", features = ["static_secrets"] }
zeroize = "1"
