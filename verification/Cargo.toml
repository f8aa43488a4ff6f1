[package]
name = "user_kit"
version = "0.1.0"
edition = "2021"
publish = false

[dependencies]
tokio = { version = "1", features = ["rt-multi-thread", "time", "macros"] }
futures = "0.3"
