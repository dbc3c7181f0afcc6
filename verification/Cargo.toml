[package]
name = "io_watch"
version = "0.1.0"
edition = "2021"
publish = false

[dependencies]
anyhow = "1"
crossterm = "0.27"
notify = "6"
similar = "2"
tokio = { version = "1", features = ["full"] }
