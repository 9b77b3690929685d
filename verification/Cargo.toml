[package]
name = "timeline_server"
version = "0.1.0"
edition = "2021"
publish = false

[dependencies]
anyhow = "1"
axum = "0.6"
axum-macros = "0.3"
base64 = "0.21"
gstreamer = "0.19"
gstreamer-app = "0.19"
gstreamer-editing-services = "0.19"
serde = { version = "1", features = ["derive"] }
serde_json = "1"
tokio = { version = "1", features = ["full"] }
tower-http = { version = "0.4", features = ["cors"] }
tracing = "0.1"
uuid = { version = "1", features = ["v4"] }
webrtc = "0.6"
