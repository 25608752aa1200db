[package]
name = "db_observer"
version = "0.1.0"
edition = "2021"
publish = false

[dependencies]
pnet = "*"
pnet_packet = "*"
log = "0.4"
env_logger = "*"
tokio = { version = "1", features = ["rt-multi-thread", "sync"] }
