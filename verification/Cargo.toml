[package]
name = "prawjector"
version = "0.1.0"
edition = "2021"
publish = false

[dependencies]
clap = { version = "4", features = ["derive"] }
color-eyre = "0.6"
crossterm = "0.28"
dirs = "*"
git2 = { version = "*", default-features = false }
kdl = "*"
ratatui = "0.29"
serde = { version = "1", features = ["derive"] }
serde_json = "1"
shellexpand = "3"
time = "0.3"

[dev-dependencies]
tempfile = "3"
