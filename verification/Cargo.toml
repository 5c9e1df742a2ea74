[package]
name = "kiosk_naplata"
version = "0.1.0"
edition = "2021"
publish = false

[dependencies]
base64 = "=0.22.1"
chrono = "=0.4.45"
crossbeam-channel = "=0.5.17"
hmac = "=0.12.1"
log = "=0.4.35"
parking_lot = "=0.12.5"
qrcode = { version = "=0.14.1", default-features = false }
rusb = { version = "=0.9.4", features = ["vendored"] }
rusqlite = { version = "=0.32.1", features = ["bundled"] }
serde = { version = "=1.0.229", features = ["derive"] }
serde_json = "=1.0.154"
serialport = { version = "=4.10.1", default-features = false }
sha2 = "=0.10.9"
tauri = { version = "2", default-features = false }
thiserror = "=1.0.69"
tokio = { version = "=1.54.1", features = ["time"] }
uuid = { version = "=1.29.0", features = ["v4"] }
