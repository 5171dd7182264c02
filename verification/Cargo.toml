[package]
name = "sshs"
version = "0.1.0"
edition = "2021"
publish = false

[dependencies]
home = "*"
clap = { version = "*", features = ["derive"] }
env_logger = "*"
exitcode = "*"
log = "*"
