[package]
name = "gpio_watch"
version = "0.1.0"
edition = "2021"
publish = false

[dependencies]
tokio = { version = "*", features = ["fs", "process", "sync", "rt"] }
inotify = "*"
tokio-stream = "*"
log = "*"
