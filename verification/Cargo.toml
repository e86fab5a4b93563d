[package]
name = "wiremix"
version = "0.1.0"
edition = "2021"
publish = false

[dependencies]
unicode-width = "0.2"
serde_json = "1"
regex = "1"
serde = { version = "1", features = ["derive"] }
toml = "0.8"
clap = { version = "4", features = ["derive"] }
