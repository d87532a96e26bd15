[package]
name = "vpn_core"
version = "0.1.0"
edition = "2021"
publish = false

[dependencies]
base64 = "=0.22.1"
x25519-dalek = { version = "=2.0.1", features = ["static_secrets"] }
sha2 = "=0.10.9"
rand = "=0.8.8"
rand_core = { version = "=0.6.4", features = ["getrandom"] }
serde = { version = "=1.0.229", features = ["derive"] }
serde_json = "=1.0.154"
keyring = { version = "=3.6.3", features = ["apple-native", "windows-native", "linux-native"] }
dirs-next = "=2.0.0"
reqwest = { version = "=0.12.28", default-features = false, features = ["json"] }
tokio = { version = "=1.54.1", features = ["full"] }
axum = "=0.7.9"
clap = { version = "=4.6.7", features = ["derive"] }
anyhow = "=1.0.104"
tempfile = "=3.27.0"
jsonwebtoken = "=9.3.1"
redis = { version = "=0.23.5", features = ["tokio-comp"] }
chrono = "=0.4.45"
url = "=2.5.8"
once_cell = "=1.21.4"
tracing = "=0.1.44"
