[package]
name = "git-fixture"
version = "0.1.0"
edition = "2021"
publish = false

[dependencies]
git2 = { version = "0.19", default-features = false }
serde = { version = "1", features = ["derive"] }
serde_json = "1"
serde_yaml = "0.9"
toml = "0.8"
humantime = "2"
humantime-serde = "1"
clap = { version = "4", features = ["derive"] }
eyre = "0.6"
proc-exit = "2"
env_logger = "0.11"
log = "0.4"
schemars = "0.8"
