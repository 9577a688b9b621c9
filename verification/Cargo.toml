[package]
name = "mixnet_core"
version = "0.1.0"
edition = "2021"
publish = false

[dependencies]
aes = "=0.8.4"
async-trait = "=0.1.92"
bs58 = "=0.5.1"
cosmwasm-std = "=1.5.11"
ctr = "=0.9.2"
cw-controllers = "=1.1.2"
cw-storage-plus = "=1.2.0"
ed25519-dalek = "=2.2.0"
futures = "=0.3.34"
hkdf = "=0.12.4"
hmac = "=0.12.1"
log = "=0.4.34"
rand = "=0.8.8"
reqwest = { version = "=0.12.28", default-features = false, features = ["json", "rustls-tls"] }
semver = "=1.0.28"
serde = { version = "=1.0.229", features = ["derive"] }
serde_json = "=1.0.154"
sha2 = "=0.10.9"
sphinx-packet = "=0.8.0"
tokio = { version = "=1.54.1", features = ["sync", "rt", "macros", "time"] }
tungstenite = "=0.21.0"
url = "=2.5.8"
x25519-dalek = "=2.0.1"
