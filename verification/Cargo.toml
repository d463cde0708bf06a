[package]
name = "bottom"
version = "0.1.0"
edition = "2021"
publish = false

[dependencies]
regex = "1"
crossterm = "0.17"
tui = { version = "0.9", default-features = false, features = ["crossterm"] }
toml = "0.5"
serde = { version = "1", features = ["derive"] }
dirs = "*"
backtrace = "0.3"
