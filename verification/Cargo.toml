[package]
name = "dino_server"
version = "0.1.0"
edition = "2021"
publish = false

[dependencies]
arc-swap = "=1.9.2"
dashmap = "=6.2.1"
rquickjs = "=0.14.0"
axum = "=0.8.9"
clap = { version = "=4.6.7", features = ["derive"] }
notify = "=8.2.0"
notify-debouncer-mini = "=0.7.0"
serde = { version = "=1.0.229", features = ["derive"] }
serde_yaml = "*"
tokio = { version = "=1.53.2", features = ["rt-multi-thread", "macros", "sync", "net", "time"] }
