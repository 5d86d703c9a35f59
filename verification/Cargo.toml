[package]
name = "cmdk"
version = "0.1.0"
edition = "2021"
publish = false

[dependencies]
md-5 = "0.10"
anyhow = "1"
arboard = "3"
atty = "0.2"
clap = { version = "4", features = ["derive"] }
crossterm = "0.28"
dirs = "5"
ratatui = "0.28"
