[package]
name = "piper"
version = "0.1.0"
edition = "2021"
publish = false

[dependencies]
zstd = "*"
tar = "*"
anyhow = "*"
clap = { version = "*", features = ["derive"] }
crossterm = "*"
ratatui = "*"
ignore = "*"
walkdir = "*"
rayon = "*"
sysinfo = "*"
trash = "*"
dirs = "*"
chrono = "*"
serde = { version = "*", features = ["derive"] }
serde_json = "*"
toml = "*"
tracing-subscriber = "*"
