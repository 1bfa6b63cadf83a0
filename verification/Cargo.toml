[package]
name = "speedtest"
version = "0.1.0"
edition = "2021"
publish = false

[dependencies]
axum = "0.8"
tokio = { version = "1", features = ["rt-multi-thread", "macros", "net", "signal", "sync"] }
clap = { version = "4", features = ["derive"] }
serde = { version = "1", features = ["derive"] }
serde_json = "1"
bytes = "1"
async-stream = "0.3"
tracing = "0.1"
webbrowser = "1"
rfd = "0.15"
tray-icon = "0.21"
winit = "0.30"
