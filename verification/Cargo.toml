[package]
name = "echo_sandbox"
version = "0.1.0"
edition = "2021"
publish = false

[dependencies]
landlock = "0.4"
schemars = "1"
serde = { version = "1", features = ["derive"] }
serde_json = "1"
