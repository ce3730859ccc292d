[package]
name = "konoasset"
version = "0.1.0"
edition = "2021"
publish = false

[dependencies]
uuid = { version = "1", features = ["v4"] }
hostname = "*"
sys-locale = "*"
serde = { version = "1", features = ["derive"] }
serde_json = "1"
tokio = { version = "1", features = ["fs", "sync", "rt", "macros"] }
monostate = "*"
log = "0.4"
