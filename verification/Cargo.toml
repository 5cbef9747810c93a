[package]
name = "update_targets"
version = "0.1.0"
edition = "2021"
publish = false

[dependencies]
clap = { version = "*", features = ["derive"] }
clap-verbosity-flag = "*"
dependabot-config = "*"
env_logger = "*"
globset = "*"
itertools = "*"
log = "*"
walkdir = "*"
