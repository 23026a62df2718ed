[package]
name = "simple_dmg"
version = "0.1.0"
edition = "2021"
publish = false

[dependencies]
clap = { version = "4", features = ["derive"] }
env_logger = "*"
eyre = "*"
log = "*"
raylib = "*"
