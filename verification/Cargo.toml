[package]
name = "torut"
version = "0.1.0"
edition = "2021"
publish = false

[dependencies]
base32 = "=0.4.0"
base64 = "=0.13.1"
ed25519-dalek = "=1.0.1"
hex = "=0.4.3"
hmac = "=0.7.1"
rand = "=0.7.3"
rand_core = { version = "0.6", features = ["getrandom"] }
rsa = "0.4"
serde = "=1.0.229"
sha2 = "=0.8.2"
sha3 = "=0.8.2"
tokio = { version = "=1.54.1", features = ["io-util"] }
