[package]
name = "dd_backup"
version = "0.1.0"
edition = "2021"
publish = false

[dependencies]
chrono = "0.4"
clap = { version = "4", features = ["derive"] }
dirs = "5"
env_logger = "0.10"
libc = "0.2"
log = "0.4"
relative-path = "1"
serde = { version = "1", features = ["derive"] }
serde_json = "1"
