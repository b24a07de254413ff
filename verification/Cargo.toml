[package]
name = "server_dash_api"
version = "0.1.0"
edition = "2021"
publish = false

[dependencies]
axum = "0.8"
base64 = "0.22"
chrono = "0.4"
jsonwebtoken = "9"
rand = "0.9"
serde = { version = "1", features = ["derive"] }
serde_json = "1"
sysinfo = "0.33"
tokio = { version = "1", features = ["full"] }
url = "2"
uuid = { version = "1", features = ["v4", "serde"] }
webauthn-rs = "0.5"
yescrypt = "*"
zbus = "5"
