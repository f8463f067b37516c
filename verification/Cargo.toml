[package]
name = "mini_rts"
version = "0.1.0"
edition = "2021"
publish = false

[dependencies]
bevy = { version = "=0.15.3", default-features = false }
serde = { version = "=1.0.229", features = ["derive"] }
bincode = "=1.3.3"
tokio = { version = "1", features = ["rt-multi-thread", "net", "io-util", "sync", "macros"] }
tokio-tungstenite = "0.26"
futures-util = { version = "0.3", default-features = false, features = ["sink", "std"] }
crossbeam-channel = "0.5"
