[package]
name = "wstui"
version = "0.1.0"
edition = "2021"
publish = false

[dependencies]
chrono = "=0.4.45"
clap = { version = "=4.6.7", features = ["derive"] }
image = "=0.25.10"
log = "=0.4.34"
qr2term = "=0.3.3"
ratatui = "0.29"
ratatui-image = "5"
rusqlite = "=0.41.0"
textwrap = "=0.16.4"
tui-logger = "0.17"
tui-textarea = "0.7"
unicode-width = "0.2"
