[package]
name = "lumencache"
version = "0.1.0"
edition = "2021"
publish = false

[dependencies]
anyhow = "*"
async-trait = "*"
bytes = "*"
futures = "*"
log = "*"
serde = { version = "*", features = ["derive"] }
serde_json = "*"
simple_logger = "*"
tokio = { version = "*", features = ["full"] }
tokio-serial = "*"
tokio-util = { version = "*", features = ["codec"] }
uuid = { version = "*", features = ["v4"] }
