[package]
name = "brachyura"
version = "0.1.0"
edition = "2021"
publish = false

[dependencies]
anyhow = "*"
axum = "*"
axum-server = { version = "*", features = ["tls-rustls"] }
env_logger = "*"
hyper = { version = "*", features = ["http1", "client"] }
hyper-util = { version = "*", features = ["client-legacy", "http1", "tokio"] }
log = "*"
once_cell = "*"
prometheus = "*"
rustls = { version = "*", features = ["ring"] }
serde = { version = "*", features = ["derive"] }
serde_yaml = "*"
tokio = { version = "*", features = ["rt-multi-thread", "macros", "time", "net"] }
