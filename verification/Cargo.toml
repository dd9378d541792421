[package]
name = "block_sync"
version = "0.1.0"
edition = "2021"
publish = false

[dependencies]
futures = "0.3"
tower = { version = "0.4", features = ["retry", "util", "buffer"] }
