[package]
name = "obelisk"
version = "0.1.0"
edition = "2021"
publish = false

[dependencies]
base64 = "=0.22.1"
rand = "=0.9.5"
h264-profile-level-id = "=0.2.0"
sdp-types = "=0.3.1"
bytesstr = "=1.0.2"
tokio = { version = "=1.54.1", features = ["rt-multi-thread", "macros", "net", "sync", "time", "signal"] }
anyhow = "=1.0.104"
log = "=0.4.35"
serde = { version = "=1.0.229", features = ["derive"] }
config = { version = "=0.15.27", default-features = false, features = ["toml"] }
hound = "=3.5.1"
openh264 = "=0.9.9"
