[package]
name = "logged"
version = "0.1.0"
edition = "2021"
publish = false

[dependencies]
anyhow = "1"
iced = { version = "0.13", default-features = false, features = ["tiny-skia", "tokio"] }
notify = "6"
rfd = "0.15"
tokio = { version = "1", features = ["fs", "io-util"] }
