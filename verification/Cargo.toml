[package]
name = "ssp_backend"
version = "0.1.0"
edition = "2021"
publish = false

[dependencies]
base64 = "0.22"
candid = "0.10"
ic-canister-sig-creation = "*"
chrono = "0.4"
hex = "0.4"
ic-cdk = "0.13"
ic-cdk-timers = "*"
ic-certification = "2"
ic-stable-structures = "0.6"
jsonwebtoken-rustcrypto = "*"
serde = { version = "1", features = ["derive"] }
serde_bytes = "0.11"
serde_cbor = "0.11"
serde_json = "1"

[dev-dependencies]
rand = "0.8"
rsa = "0.9"
sha2 = "0.10"
