[package]
name = "slp_chat"
version = "0.1.0"
edition = "2021"
publish = false

[dependencies]
chrono = { version = "=0.4.45", features = ["serde"] }
dirs = "=7.0.0"
uuid = { version = "=1.29.0", features = ["v4"] }
getrandom = "=0.4.3"
image = { version = "=0.25.10", default-features = false, features = ["png", "jpeg"] }
serde = { version = "=1.0.229", features = ["derive"] }
serde_json = "=1.0.154"
tokio = { version = "=1.54.1", features = ["rt-multi-thread", "sync"] }
libc = "=0.2.191"
