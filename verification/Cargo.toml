[package]
name = "topngx"
version = "0.1.0"
edition = "2021"
publish = false

[dependencies]
regex = "*"
rusqlite = { version = "*", features = ["bundled"] }
anyhow = "*"
atty = "*"
env_logger = "*"
log = "*"
structopt = "*"
