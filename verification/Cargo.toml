[package]
name = "vivarium_assistant"
version = "0.1.0"
edition = "2021"
publish = false

[dependencies]
anyhow = "*"
axum = "*"
chrono = "*"
duration-parser = "*"
env_logger = "*"
lazy_static = "*"
log = "*"
prometheus = "*"
rppal = "*"
serde = { version = "*", features = ["derive"] }
tokio = { version = "*", features = ["macros", "rt-multi-thread", "net", "time"] }
toml = "*"
