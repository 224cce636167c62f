[package]
name = "pike"
version = "0.1.0"
edition = "2021"
publish = false

[dependencies]
clap = { version = "=4.6.7", features = ["derive"] }
crossterm = "=0.28.1"
dirs = "=5.0.1"
ratatui = "=0.29.0"
scribe = "=0.10.0"
toml = "=0.8.23"
tui-input = { version = "=0.11.1", default-features = false }
unicode-segmentation = "=1.13.3"

[dev-dependencies]
tempfile = "3"
