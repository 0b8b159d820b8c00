[package]
name = "trango"
version = "0.1.0"
edition = "2021"
publish = false

[dependencies]
unicode-normalization = "0.1"
webrtc-vad = "0.4"
serde = { version = "1", features = ["derive"] }
serde_json = "1"
toml = "0.8"
thiserror = "2"
tracing = "0.1"
tracing-subscriber = { version = "0.3", features = ["env-filter"] }
anyhow = "1"
libmpv2 = "*"
ort = { version = "2.0.0-rc.10", default-features = false, features = ["load-dynamic"] }
