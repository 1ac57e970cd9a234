[package]
name = "mq_task"
version = "0.1.0"
edition = "2021"
publish = false

[dependencies]
clap = { version = "4", features = ["derive"] }
colored = "2"
miette = "7"
serde = { version = "1", features = ["derive"] }
toml = "0.8"
