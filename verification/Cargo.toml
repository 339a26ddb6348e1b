[package]
name = "tzupdate"
version = "0.1.0"
edition = "2021"
publish = false

[dependencies]
anyhow = "1"
clap = { version = "4", features = ["derive"] }
env_logger = "*"
log = "0.4"
serde_json = "1"
tempfile = "3"
ureq = { version = "3", features = ["json"] }
