[package]
name = "reality"
version = "0.1.0"
edition = "2021"
publish = false

[dependencies]
anyhow = "1"
bevy = { version = "0.16", default-features = false, features = ["bevy_asset", "bevy_log", "reflect_functions"] }
flume = "0.11"
piccolo = "0.3"
send_wrapper = "0.6"
serde = { version = "1", features = ["derive"] }
