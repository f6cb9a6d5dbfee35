[package]
name = "webdock"
version = "0.1.0"
edition = "2021"
publish = false

[dependencies]
subtle = "2"
rand = "0.8"
base64 = "0.22"
openh264 = "0.8"
serde = { version = "1", features = ["derive"] }
serde_json = "1"
axum = { version = "0.7", features = ["ws"] }
tokio = { version = "1", features = ["full"] }
futures-util = "0.3"
ureq = "2"
if-addrs = "0.13"
directories = "5"
tracing = "0.1"
tracing-subscriber = { version = "0.3", features = ["env-filter"] }
parking_lot = "0.12"
thiserror = "1"
image = { version = "0.25", default-features = false, features = ["jpeg", "png"] }
sysinfo = "0.33"
arboard = "3"
icns = "0.3"
async-trait = "0.1"
