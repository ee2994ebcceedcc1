[package]
name = "lazymagick"
version = "0.1.0"
edition = "2021"
publish = false

[dependencies]
clap = { version = "4", features = ["derive"] }
clap_complete = "4"
color-eyre = "0.6"
crossterm = "0.28"
dirs = "6"
glob = "0.3"
image = { version = "0.25", default-features = false, features = ["png", "jpeg"] }
ratatui = "0.29"
ratatui-image = "4"
serde = { version = "1", features = ["derive"] }
toml = "0.8"
walkdir = "2"
