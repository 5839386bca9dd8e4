[package]
name = "warp"
version = "0.1.0"
edition = "2021"
publish = false

[dependencies]
anyhow = "1"
base64 = "0.22"
bs58 = "0.5"
bytes = "1"
chrono = "0.4"
clap = { version = "4", features = ["derive"] }
cpal = "0.15"
dotenv = "0.15"
futures = "0.3"
image = { version = "0.25", default-features = false, features = ["png", "jpeg"] }
indexmap = "2"
mp4 = "*"
ringbuf = "0.3"
serde = { version = "1", features = ["derive"] }
serde_json = "1"
tokio = { version = "1", features = ["rt", "macros", "sync", "time", "fs", "io-util", "io-std", "signal"] }
uuid = { version = "1", features = ["v4"] }
zeroize = "1"
