[package]
name = "not_rsync"
version = "0.1.0"
edition = "2021"
publish = false

[dependencies]
anyhow = "1"
bytes = "1"
chrono = "0.4"
clap = { version = "4", features = ["derive"] }
env_logger = "*"
fast_rsync = "*"
log = "0.4"
prost = "*"
ssh2 = "0.9"
whoami = "1"
