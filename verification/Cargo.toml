[package]
name = "rfd"
version = "0.1.0"
edition = "2021"
publish = false

[dependencies]
axum = "0.8"
tokio = { version = "1", features = ["rt", "net", "time", "sync"] }
tempfile = "3"
webbrowser = "1"
log = "0.4"
async-io = "2"
futures-util = { version = "0.3", features = ["io"] }
pollster = "0.4"
raw-window-handle = "0.6"
