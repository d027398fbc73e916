[package]
name = "bad-browser"
version = "0.1.0"
edition = "2021"
publish = false

[dependencies]
anyhow = "1"
chrono = { version = "0.4", default-features = false, features = ["clock"] }
clap = { version = "4", features = ["derive"] }
crossterm = "0.28"
html2text = "*"
percent-encoding = "2"
rand = "0.9"
ratatui = "0.29"
regex = "1"
reqwest = { version = "0.12", default-features = false, features = ["blocking", "default-tls"] }
rust-i18n = "3"
unicode-segmentation = "1"
unicode-width = "0.2"
url = "2"
