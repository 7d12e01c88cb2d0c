[package]
name = "ipchat"
version = "0.1.0"
edition = "2021"
publish = false

[dependencies]
anyhow = "=1.0.104"
axum = "=0.8.9"
chrono = { version = "=0.4.45", features = ["serde"] }
clap = { version = "=4.6.7", features = ["derive"] }
futures = "=0.3.34"
futures-util = { version = "=0.3.34", features = ["sink"] }
gloo-net = { version = "=0.6.0", features = ["websocket"] }
gloo-timers = { version = "=0.3.0", features = ["futures"] }
http = "=1.5.0"
if-addrs = "=0.15.0"
js-sys = "=0.3.107"
local-ip-address = "=0.6.13"
mime_guess = "=2.0.5"
reqwest = { version = "=0.12.28", default-features = false, features = ["json"] }
rust-embed = { version = "=8.13.0", features = ["interpolate-folder-path"] }
serde = { version = "=1.0.229", features = ["derive"] }
serde_json = "=1.0.154"
serde-wasm-bindgen = "=0.6.5"
socket2 = { version = "=0.5.10", features = ["all"] }
thiserror = "=2.0.21"
tokio = { version = "=1.54.1", features = ["full"] }
tokio-tungstenite = "=0.30.0"
tower-http = { version = "=0.6.11", features = ["trace"] }
tracing = "=0.1.44"
tracing-subscriber = { version = "=0.3.23", features = ["env-filter"] }
uuid = { version = "=1.29.0", features = ["v4", "serde"] }
wasm-bindgen = "=0.2.130"
wasm-bindgen-futures = "=0.4.80"
web-sys = { version = "=0.3.107", features = ["console", "Window", "Location", "WebSocket", "MessageEvent", "ErrorEvent", "CloseEvent", "RtcConfiguration", "RtcPeerConnection", "RtcDataChannel", "RtcDataChannelEvent", "RtcIceCandidate", "RtcIceCandidateInit", "RtcPeerConnectionIceEvent", "RtcSdpType", "RtcSessionDescriptionInit"] }
