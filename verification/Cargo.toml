[package]
name = "rtsp_factory"
version = "0.1.0"
edition = "2021"
publish = false

[dependencies]
anyhow = "1"
gstreamer = "0.23"
gstreamer-app = "0.23"
log = "0.4"
tokio = { version = "1", features = ["macros", "rt", "sync", "time"] }
