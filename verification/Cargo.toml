[package]
name = "dlcut"
version = "0.1.0"
edition = "2021"
publish = false

[dependencies]
regex = "*"
serde = { version = "*", features = ["derive"] }
serde_json = "*"
tokio = { version = "*", features = ["full"] }
dirs = "*"
