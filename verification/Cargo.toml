[package]
name = "pfrange"
version = "0.0.1"
edition = "2021"
publish = false

[dependencies]
clap = { version = "3", features = ["derive"] }
serde = { version = "1", features = ["derive"] }
serde_json = "1"
