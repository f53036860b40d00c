[package]
name = "prometheus_edge_trigger"
version = "0.1.0"
edition = "2021"
publish = false

[dependencies]
tokio = { version = "*", features = ["macros", "rt-multi-thread", "time", "fs"] }
serde = { version = "*", features = ["derive"] }
serde_json = "*"
toml = "*"
reqwest = { version = "*", default-features = false }
rumqttc = "*"
log = "*"
env_logger = "*"
hostname = "*"
secretfile = "*"
prometheus-edge-detector = "*"
mdns = "*"
