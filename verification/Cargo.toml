[package]
name = "zinc_vm"
version = "0.1.0"
edition = "2021"
publish = false

[dependencies]
chrono = "*"
mongodb = { version = "*", features = ["sync"] }
serde = { version = "*", features = ["derive"] }
serde_json = "*"
