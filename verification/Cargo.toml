[package]
name = "nettool"
version = "0.1.0"
edition = "2021"
publish = false

[dependencies]
getrandom = "0.3"
keyring = { version = "3", default-features = false }
prost = "0.13"
rcgen = "0.14"
rustls-pki-types = "1"
serde = { version = "1", features = ["derive"] }
serde_json = "1"
sha2 = "0.10"
tokio = { version = "1", features = ["io-util", "net", "rt", "sync", "time", "macros"] }
x509-parser = "0.17"
