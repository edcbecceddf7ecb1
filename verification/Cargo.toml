[package]
name = "quickdrop"
version = "0.1.0"
edition = "2021"
publish = false

[dependencies]
aes-gcm = "=0.10.3"
hkdf = "=0.12.4"
sha2 = "=0.10.9"
ed25519-dalek = "=2.2.0"
curve25519-dalek = "=4.1.3"
ctr = "=0.9.2"
rand = "=0.9.5"
base64 = "=0.22.1"
tokio = { version = "=1.54.1", features = ["net", "io-util", "fs", "sync", "rt-multi-thread", "macros", "time"] }
serde = { version = "=1.0.229", features = ["derive"] }
serde_json = "=1.0.154"
uuid = { version = "=1.29.0", features = ["v4"] }
local-ip-address = "=0.6.13"
socket2 = "=0.5.10"
dirs = "=5.0.1"
futures = "=0.3.34"
