[package]
name = "justrans"
version = "0.1.0"
edition = "2021"
publish = false

[dependencies]
anyhow = "=1.0.104"
axum = { version = "=0.7.9", features = ["multipart", "macros"] }
chrono = "=0.4.45"
image = { version = "=0.25.10", default-features = false, features = ["png"] }
local-ip-address = "=0.6.13"
log = "=0.4.34"
once_cell = "=1.21.4"
open = "=5.4.5"
qrcode = { version = "=0.14.1", default-features = false, features = ["image"] }
serde = { version = "=1.0.229", features = ["derive"] }
serde_yaml = "=0.9.34"
tokio = { version = "=1.54.1", features = ["full"] }
tower-http = { version = "=0.5.2", features = ["cors", "fs", "trace"] }
