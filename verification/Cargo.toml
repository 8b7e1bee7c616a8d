[package]
name = "concurrency"
version = "0.1.0"
edition = "2021"
publish = false

[dependencies]
anyhow = "=1.0.104"
dashmap = "=5.5.3"
oneshot = { version = "=0.1.13", default-features = false, features = ["std"] }
