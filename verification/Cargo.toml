[package]
name = "ddev_workspaces"
version = "0.1.0"
edition = "2021"
publish = false

[dependencies]
clap = { version = "4", features = ["cargo"] }
serde = { version = "1", features = ["derive"] }
serde_json = "1"
toml = "*"
signal-hook = "*"

[dev-dependencies]
tempfile = "3"
