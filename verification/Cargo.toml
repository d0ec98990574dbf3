[package]
name = "filesync"
version = "0.1.0"
edition = "2021"
publish = false

[dependencies]
anyhow = "1"
bytesize = "1"
clap = { version = "4", features = ["derive"] }
crossterm = "0.28"
dirs = "5"
ratatui = "0.29"
rpassword = "7"
serde = { version = "1", features = ["derive"] }
ssh2 = "0.9"
toml = "0.8"
