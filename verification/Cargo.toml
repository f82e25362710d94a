[package]
name = "memvid_core"
version = "0.1.0"
edition = "2021"
publish = false

[dependencies]
aes-gcm = "0.10"
argon2 = "0.5"
atomic-write-file = "*"
base64 = "0.22"
crc32fast = "1"
ed25519-dalek = "2"
rand = "0.8"
serde = { version = "1", features = ["derive"] }
serde_json = "1"
uuid = "1"
zeroize = "1"
