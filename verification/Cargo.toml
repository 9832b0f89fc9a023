[package]
name = "darkbluff"
version = "0.1.0"
edition = "2021"
publish = false

[dependencies]
unicode-width = "0.2"
serde = { version = "=1.0.229", features = ["derive"] }
serde_yml = "=0.0.13"
serde_json = "=1.0.154"
clap = { version = "=4.6.7", features = ["derive"] }
dirs = "=7.0.0"
chrono = "=0.4.45"
thiserror = "=2.0.21"
ratatui = "0.29"
crossterm = "0.28"
signal-hook = "0.3"
tracing = "0.1"
tracing-subscriber = { version = "0.3", features = ["env-filter"] }
tracing-appender = "0.2"
