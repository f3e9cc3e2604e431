[package]
name = "livescroll_rss"
version = "0.1.0"
edition = "2021"
publish = false

[dependencies]
rss = "*"
chrono = "*"
reqwest = { version = "*", default-features = false, features = ["blocking"] }
crossterm = "*"
ratatui = "*"
anyhow = "*"
