[package]
name = "cloud_gateway"
version = "0.1.0"
edition = "2021"
publish = false

[dependencies]
http = "1"
regex = "1"
form_urlencoded = "1"
hyper = { version = "1", features = ["http1", "server", "client"] }
hyper-util = { version = "0.1", features = ["tokio"] }
tokio = { version = "1", features = ["full"] }
bytes = "1"
pin-project-lite = "0.2"
serde = { version = "1", features = ["derive"] }
serde_yaml = "0.9"
serde_json = "1"
reqwest = { version = "0.12", default-features = false, features = ["json"] }
backoff = { version = "0.4", features = ["tokio"] }
dashmap = "*"
log = "*"
env_logger = "*"
metrics = "*"
async-trait = "*"
