[package]
name = "relay_proxy"
version = "0.1.0"
edition = "2021"
publish = false

[dependencies]
ntex = { version = "=3.12.3", features = ["tokio"] }
reqwest = { version = "=0.12.28", default-features = false, features = ["rustls-tls", "stream"] }
futures-util = "*"
log = "*"
env_logger = "*"
num_cpus = "*"
