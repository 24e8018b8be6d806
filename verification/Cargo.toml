[package]
name = "animus_patch_loader"
version = "0.2.0"
edition = "2021"
publish = false

[dependencies]
sha2 = "=0.10.9"
hex = "=0.4.3"
uuid = { version = "=1.29.0", features = ["v4"] }
serde = { version = "=1.0.229", features = ["derive"] }
serde_json = "=1.0.154"
zip = { version = "=2.6.1", default-features = false, features = ["deflate"] }
reqwest = { version = "=0.12.28", default-features = false, features = ["blocking"] }
chacha20poly1305 = "=0.10.1"
ed25519-dalek = "=2.2.0"
rand = "=0.8.8"
base64 = "=0.22.1"
zeroize = "=1.9.1"
chrono = "=0.4.45"
dirs = "=5.0.1"
walkdir = "=2.5.0"
sysinfo = "=0.32.1"
tempfile = "=3.27.0"
thiserror = "=1.0.69"
keyring = { version = "=3.6.3", default-features = false, features = ["windows-native", "apple-native", "linux-native"] }
