[package]
name = "life_engine"
version = "0.1.0"
edition = "2021"
publish = false

[dependencies]
rand = "=0.8.8"
clap = { version = "=4.6.7", features = ["derive"] }
color-eyre = "=0.6.5"
ratatui = "=0.28.1"
