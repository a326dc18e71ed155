[package]
name = "beelay"
version = "0.1.0"
edition = "2021"
publish = false

[dependencies]
async-channel = "*"
clap = { version = "4", features = ["derive"] }
env_logger = "*"
form_urlencoded = "1"
http = "0.2"
hyper = { version = "0.14", features = ["server", "tcp", "http1", "runtime"] }
indexmap = { version = "2", features = ["serde"] }
libsystemd = "*"
log = "0.4"
rumqttc = { version = "*", default-features = false }
serde = { version = "1", features = ["derive"] }
serde_json = "1"
tokio = { version = "1", features = ["full"] }
toml = "0.8"
