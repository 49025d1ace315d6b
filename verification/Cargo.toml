[package]
name = "websink"
version = "0.1.0"
edition = "2021"
publish = false

[dependencies]
axum = "=0.7.9"
bytes = "=1.12.1"
get_if_addrs = "=0.5.3"
hostname = "=0.4.2"
mime_guess = "=2.0.5"
once_cell = "=1.21.4"
rtp = "=0.17.2"
rust-embed = "=8.13.0"
serde = { version = "=1.0.229", features = ["derive"] }
serde_json = "=1.0.154"
tokio = { version = "=1.54.1", features = ["full"] }
uuid = { version = "=1.29.0", features = ["v4"] }
webrtc = "=0.17.2"
webrtc-util = "=0.17.2"
