[package]
name = "zk_mlp"
version = "0.1.0"
edition = "2021"
publish = false

[dependencies]
ark-ff = "0.3"
ark-ec = "0.3"
ark-pallas = "0.3"
bincode = "1.3"
serde = { version = "1", features = ["derive"] }
serde_json = "1"
tokio = { version = "1", features = ["net", "io-util", "rt-multi-thread", "macros", "sync", "time"] }
chrono = "0.4"
env_logger = "0.10"
log = "0.4"
smartcore = { version = "0.3", features = ["serde"] }
rmp-serde = "1"
