[package]
name = "garden"
version = "0.1.0"
edition = "2021"
publish = false

[dependencies]
async-trait = "0.1"
base64 = "0.22"
bytes = "1"
clap = { version = "*", features = ["derive"] }
env_logger = "*"
http-body-util = "0.1"
hyper = { version = "1", features = ["full"] }
hyper-util = { version = "0.1", features = ["full"] }
log = "0.4"
pingora-core = "*"
pingora-http = "*"
pingora-proxy = "*"
prometheus = "*"
tokio = { version = "1", features = ["full"] }
