[package]
name = "puff"
version = "0.1.0"
edition = "2021"
publish = false

[dependencies]
anyhow = "*"
colored = "*"
serde = { version = "*", features = ["derive"] }
serde_yml = "*"
