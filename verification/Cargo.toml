[package]
name = "rustlint"
version = "0.1.0"
edition = "2021"
publish = false

[dependencies]
rustpython-parser = "=0.4.0"
anyhow = "=1.0.104"
clap = { version = "=4.6.7", features = ["derive"] }
colored = "=3.1.1"
env_logger = "=0.11.11"
rayon = "=1.12.0"
serde = { version = "=1.0.229", features = ["derive"] }
toml = "=0.9.8"
walkdir = "=2.5.0"
