[package]
name = "hostpilot"
version = "0.9.1"
edition = "2021"
publish = false

[dependencies]
anyhow = "1"
chrono = "0.4"
clap = { version = "4", features = ["derive"] }
cli-table = "*"
crossbeam-channel = "0.5"
crossterm = "0.28"
dirs = "*"
enable-ansi-support = "*"
indicatif = "*"
owo-colors = "4"
ratatui = "0.29"
rusqlite = { version = "*", features = ["bundled"] }
serde = { version = "1", features = ["derive"] }
serde_json = "1"
ssh2 = "0.9"
tracing = "0.1"
tracing-appender = "0.2"
tracing-subscriber = { version = "0.3", features = ["env-filter"] }
walkdir = "2"
which = "*"
