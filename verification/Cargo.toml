[package]
name = "flowsurface"
version = "0.1.0"
edition = "2021"
publish = false

[dependencies]
rand = "=0.10.3"
serde = { version = "=1.0.229", features = ["derive"] }
serde_json = "=1.0.154"
tokio = { version = "=1.54.1", features = ["net"] }
tokio-tungstenite = "=0.30.0"
futures-util = "=0.3.34"
iced = { version = "=0.14.0", default-features = false, features = ["canvas", "tiny-skia", "x11", "tokio"] }
iced_core = "=0.14.0"
log = "=0.4.34"
