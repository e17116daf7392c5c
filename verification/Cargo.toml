[package]
name = "vc_core"
version = "0.1.0"
edition = "2021"
publish = false

[dependencies]
chacha20poly1305 = "0.10"
ed25519-dalek = "2"
x25519-dalek = { version = "2", features = ["static_secrets"] }
hkdf = "0.12"
sha2 = "0.10"
rand = "0.8"
base64 = "0.22"
crossbeam-channel = "0.5"
anyhow = "1"
