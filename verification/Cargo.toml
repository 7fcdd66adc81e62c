[package]
name = "dualpane"
version = "0.1.0"
edition = "2021"
publish = false

[dependencies]
anyhow = "=1.0.104"
crossterm = "=0.28.1"
custom_error = "=1.9.2"
notify = "=8.2.0"
ratatui = "=0.28.1"
tokio = { version = "=1.53.2", features = ["sync", "macros", "rt-multi-thread", "time"] }
tui-textarea = "=0.6.1"
