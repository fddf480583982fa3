[package]
name = "console_mode"
version = "0.1.0"
edition = "2021"
publish = false

[dependencies]
anyhow = "1"
chrono = "0.4"
clap = { version = "4", features = ["derive"] }
crossterm = "0.28"
evdev = "0.12"
libc = "0.2"
ratatui = "0.29"
