[package]
name = "mkdr"
version = "0.6.0"
edition = "2021"
publish = false

[dependencies]
pulldown-cmark = { version = "=0.13.6", default-features = false }
syntect = { version = "=5.3.0", default-features = false, features = ["default-fancy"] }
unicode-width = "=0.2.0"
ratatui = "=0.29.0"
crossterm = "=0.28.1"
clap = { version = "=4.6.7", features = ["derive"] }
clap_complete = "=4.6.11"
serde = { version = "=1.0.229", features = ["derive"] }
toml = "=0.8.23"
dirs = "=6.0.0"
open = "5"
