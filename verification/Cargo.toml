[package]
name = "ffoie_chat"
version = "0.1.0"
edition = "2021"
publish = false

[dependencies]
axum = { version = "0.8", features = ["ws"] }
dotenvy = "0.15"
egui = { version = "0.34", default-features = false }
ewebsock = "0.8"
fastrand = "2"
gloo-timers = { version = "0.3", features = ["futures"] }
js-sys = "0.3"
log = "0.4"
parking_lot = "0.12"
serde = { version = "1", features = ["derive"] }
serde_json = "1"
tokio = { version = "1", features = ["full"] }
tokio-util = { version = "0.7", features = ["rt"] }
tower-http = { version = "0.6", features = ["cors", "trace"] }
tracing = "0.1"
tracing-subscriber = { version = "0.3", features = ["env-filter", "json"] }
uuid = { version = "1", features = ["v4"] }
wasm-bindgen = "0.2"
wasm-bindgen-futures = "0.4"
web-sys = { version = "0.3", features = ["Document", "EventTarget", "Window"] }
winit = { version = "0.30", default-features = false, features = ["x11", "rwh_06"] }
