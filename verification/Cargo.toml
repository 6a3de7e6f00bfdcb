[package]
name = "pulldown_kdl"
version = "0.1.0"
edition = "2021"
publish = false

[dependencies]
lexopt = "*"
miette = { version = "*", features = ["fancy"] }
serde = { version = "*", features = ["derive"] }
serde_json = "*"
