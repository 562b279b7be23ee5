[package]
name = "pdb"
version = "0.1.0"
edition = "2021"
publish = false

[dependencies]
anyhow = "1"
clap = { version = "4", features = ["derive"] }
regex = "1"
ratatui = "0.29"
crossterm = "0.28"
