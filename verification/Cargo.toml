[package]
name = "quest_presence"
version = "0.1.0"
edition = "2021"
publish = false

[dependencies]
discord-sdk = "*"
tokio = { version = "*", features = ["rt-multi-thread", "macros", "sync", "time"] }
reqwest = { version = "*", default-features = false, features = ["blocking", "rustls-tls"] }
