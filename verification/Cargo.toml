[package]
name = "remote_touchpad"
version = "0.1.0"
edition = "2021"
publish = false

[dependencies]
enigo = "0.0.14"
futures-util = "0.3"
serde = { version = "1", features = ["derive"] }
serde_json = "1"
tokio = { version = "1", features = ["full"] }
warp = "0.3"
