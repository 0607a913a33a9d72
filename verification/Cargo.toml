[package]
name = "iptables_proxy"
version = "0.1.0"
edition = "2021"
publish = false

[dependencies]
axum = "0.6"
clap = { version = "4", features = ["derive"] }
serde = { version = "1", features = ["derive"] }
tokio = { version = "1", features = ["macros", "rt", "net", "process"] }
tracing = "0.1"
tracing-subscriber = "0.3"
