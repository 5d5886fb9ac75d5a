[package]
name = "systemyml"
version = "0.0.1"
edition = "2021"
publish = false

[dependencies]
clap = "2.34"
env_logger = "0.10"
log = "0.4"
serde = { version = "1.0", features = ["derive"] }
serde_yaml = "0.9"
