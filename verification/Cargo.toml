[package]
name = "wireless_display"
version = "0.1.0"
edition = "2021"
publish = false

[dependencies]
anyhow = "1"
async-channel = "2"
bytes = "1"
dirs = "6"
gstreamer = "0.23"
gstreamer-app = "0.23"
gtk4 = { version = "0.9", features = ["v4_12"] }
hex = "0.4"
if-addrs = "0.13"
jni = "0.21"
libadwaita = { version = "0.7", features = ["v1_5"] }
mdns-sd = "0.13"
postcard = { version = "1", features = ["alloc"] }
quinn = "0.11"
rcgen = "0.14"
ring = "0.17"
rustls = { version = "0.23", default-features = false, features = ["ring", "std"] }
serde = { version = "1", features = ["derive"] }
serde_json = "1"
sha2 = "0.10"
spake2 = "0.4"
thiserror = "2"
tokio = { version = "1", features = ["full"] }
toml = "0.8"
tracing = "0.1"
tracing-subscriber = { version = "0.3", features = ["env-filter"] }
