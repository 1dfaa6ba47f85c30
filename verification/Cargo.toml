[package]
name = "watchparty"
version = "0.1.0"
edition = "2021"
publish = false

[dependencies]
axum = { version = "=0.7.9", features = ["ws"] }
tokio = { version = "=1.54.1", features = ["macros", "rt-multi-thread", "fs", "io-util", "process", "sync", "time", "net"] }
tower-http = { version = "=0.5.2", features = ["fs", "trace"] }
rusqlite = { version = "=0.31.0", features = ["bundled"] }
futures-util = { version = "=0.3.34", features = ["sink"] }
serde = { version = "=1.0.229", features = ["derive"] }
serde_json = "=1.0.154"
tracing = "=0.1.44"
tracing-subscriber = { version = "=0.3.23", features = ["env-filter"] }
leptos = { version = "=0.6.15", features = ["csr"] }
wasm-bindgen = "=0.2.130"
wasm-bindgen-futures = "=0.4.80"
js-sys = "=0.3.107"
web-sys = { version = "=0.3.107", features = ["Window", "Document", "Element", "HtmlElement", "HtmlInputElement", "HtmlVideoElement", "HtmlMediaElement", "Node", "Event", "EventTarget", "MessageEvent", "WebSocket", "File", "FileList", "Blob", "Location", "UrlSearchParams", "Navigator", "Clipboard", "MediaDevices", "MediaStream", "MediaStreamConstraints", "MediaStreamTrack", "RtcConfiguration", "RtcIceCandidate", "RtcIceCandidateInit", "RtcPeerConnection", "RtcPeerConnectionIceEvent", "RtcRtpSender", "RtcSessionDescriptionInit", "RtcTrackEvent"] }
gloo-net = { version = "=0.5.0", default-features = false, features = ["http", "json"] }
gloo-timers = "=0.3.0"
console_error_panic_hook = "=0.1.7"
