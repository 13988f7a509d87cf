[package]
name = "slovowiki"
version = "0.1.0"
edition = "2021"
publish = false

[dependencies]
anyhow = "1"
interslavic = "*"
serde = { version = "1", features = ["derive"] }
serde_json = "1"
