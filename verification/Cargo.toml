[package]
name = "counter_tui"
version = "0.1.0"
edition = "2021"
publish = false

[dependencies]
color-eyre = "*"
crossterm = "*"
ratatui = "*"
serde = { version = "*", features = ["derive"] }
strum = { version = "*", features = ["derive"] }
tokio = { version = "*", features = ["full"] }
tracing = "*"
