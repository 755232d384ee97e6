[package]
name = "eazy_controller"
version = "0.1.0"
edition = "2021"
publish = false

[dependencies]
serde_json = "1"
base64 = "0.22"
serde = { version = "1", features = ["derive"] }
tokio = { version = "1", features = ["rt-multi-thread", "macros", "net", "sync", "time"] }
axum = { version = "0.8", features = ["ws"] }
futures-util = "0.3"
local-ip-address = "0.6"
mdns-sd = "0.13"
tower-http = { version = "0.6", features = ["cors"] }
