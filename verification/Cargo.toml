[package]
name = "duck"
version = "0.1.0"
edition = "2021"
publish = false

[dependencies]
semver = { version = "1", features = ["serde"] }
serde = { version = "1", features = ["derive"] }
serde_json = { version = "1", features = ["raw_value"] }
clap = { version = "4", features = ["derive"] }
tokio = { version = "1", features = ["full"] }
tracing = "0.1"
tracing-subscriber = { version = "0.3", features = ["env-filter"] }
libc = "0.2"
uuid = "1"
async-trait = "0.1"
anyhow = "1"
futures = "0.3"
ratatui = "0.29"
zbus = { version = "5", default-features = false, features = ["tokio"] }
bluer = { version = "0.17", features = ["bluetoothd"] }
gstreamer = "0.23"
gstreamer-app = "0.23"
gstreamer-webrtc = "0.23"
glib = "0.20"
