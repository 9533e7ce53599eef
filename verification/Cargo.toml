[package]
name = "multiplayer_game"
version = "0.1.0"
edition = "2021"
publish = false

[dependencies]
tokio = { version = "1", features = ["sync", "net", "rt-multi-thread", "time", "macros", "io-util"] }
uuid = { version = "1", features = ["v4"] }
cgmath = "0.18"
anyhow = "1"
