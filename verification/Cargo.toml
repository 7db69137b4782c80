[package]
name = "chiprust8"
version = "0.1.0"
edition = "2021"
publish = false

[dependencies]
rand = "0.8"
crossbeam = "*"
clap = { version = "*", features = ["derive"] }
log = "*"
env_logger = "*"
