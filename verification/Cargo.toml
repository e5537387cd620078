[package]
name = "jsonfizz"
version = "0.1.0"
edition = "2021"
publish = false

[dependencies]
atty = "0.2"
clap = { version = "4", features = ["derive"] }
clap_complete = "4"
csv = "1"
dirs = "5"
notify = "6"
serde = { version = "1", features = ["derive"] }
serde_json = { version = "1", features = ["preserve_order"] }
serde_yaml = "0.9"
toml = { version = "0.8", features = ["preserve_order"] }
