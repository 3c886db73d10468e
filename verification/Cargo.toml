[package]
name = "codex_accounts"
version = "0.1.0"
edition = "2021"
publish = false

[dependencies]
serde = { version = "1", features = ["derive"] }
serde_json = "1"
base64 = "0.22"
chacha20poly1305 = "0.10"
sha2 = "0.10"
url = "2"
uuid = { version = "1", features = ["v4"] }
chrono = "0.4"
rand = "0.8"
tokio = { version = "1", features = ["rt-multi-thread", "macros", "net", "io-util", "time", "sync"] }
tokio-util = "0.7"
reqwest = { version = "0.12", default-features = false, features = ["json"] }
futures = "0.3"
async-trait = "0.1"
keyring = "3"
dirs = "5"
fs2 = "0.4"
open = "5"
tempfile = "3"
zeroize = { version = "1", features = ["zeroize_derive"] }
