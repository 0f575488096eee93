[package]
name = "cedar_agent"
version = "0.1.0"
edition = "2021"
publish = false

[dependencies]
cedar-policy = "4"
serde = { version = "1", features = ["derive"] }
serde_json = "1"
clap = { version = "4", features = ["derive"] }
