[package]
name = "goldsrc_plugin"
version = "0.3.6"
edition = "2021"
publish = false

[dependencies]
serde = { version = "1", features = ["derive"] }
serde_json = "1"
pollster = "0.4"
rfd = "0.15"
