[package]
name = "keri"
version = "0.1.0"
edition = "2021"
publish = false

[dependencies]
base64 = "=0.13.1"
ursa = { version = "=0.3.7", default-features = false, features = ["ed25519", "ecdsa_secp256k1_native", "hashes"] }
serde = { version = "=1.0.229", features = ["derive"] }
serde_json = "=1.0.154"
serde_cbor = "=0.11.2"
rmp-serde = "=1.3.1"
serde-hex = "=0.1.0"
thiserror = "=1.0.69"
