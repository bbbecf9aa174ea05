[package]
name = "rusthook"
version = "0.1.0"
edition = "2021"
publish = false

[dependencies]
rust-crypto = "*"
regex = "*"
ipnet = "*"
serde_json = "*"
serde = { version = "*", features = ["derive"] }
serde_yaml = "*"
clap = { version = "*", features = ["derive"] }
lazy_static = "*"
log = "*"
simplelog = "*"
threadpool = "*"
