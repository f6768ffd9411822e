[package]
name = "tasklog"
version = "0.1.0"
edition = "2021"
publish = false

[dependencies]
chrono = "*"
dirs = "*"

[dev-dependencies]
serde_json = "*"
