[package]
name = "sd_vc_qr"
version = "0.1.0"
edition = "2021"
publish = false

[dependencies]
base64 = "0.22"
chrono = "0.4"
ed25519-dalek = { version = "2", features = ["rand_core"] }
k256 = "0.13"
p256 = "0.13"
multibase = "0.9"
pqcrypto-dilithium = "*"
pqcrypto-falcon = "*"
pqcrypto-traits = "*"
rand = "0.8"
rand_core = { version = "0.6", features = ["getrandom"] }
serde = { version = "1", features = ["derive"] }
serde_json = "1"
sha2 = "0.10"
unsigned-varint = "0.8"
uuid = { version = "1", features = ["v4"] }
