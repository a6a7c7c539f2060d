[package]
name = "wslarc"
version = "0.1.0"
edition = "2021"
publish = false

[dependencies]
anyhow = "*"
clap = { version = "*", features = ["derive"] }
console = "*"
dialoguer = "*"
env_logger = "*"
log = "*"
rust-ini = "*"
