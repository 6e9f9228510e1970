[package]
name = "minerva"
version = "0.1.0"
edition = "2021"
publish = false

[dependencies]
ratatui = { version = "=0.30.2", features = ["unstable-rendered-line-info"] }
crossterm = "=0.29.0"
serde = { version = "=1.0.229", features = ["derive"] }
serde_json = "=1.0.154"
tokio = { version = "=1.54.1", features = ["rt"] }
futures = "=0.3.34"
rig-core = "=0.32.0"
color-eyre = "=0.6.5"
