[package]
name = "frame_report"
version = "0.1.0"
edition = "2021"
publish = false

[dependencies]
anyhow = "*"
chrono = "*"
clap = { version = "*", features = ["derive"] }
colored = "*"
serde = { version = "*", features = ["derive"] }
serde_json = "*"
