[package]
name = "alpha_tui"
version = "0.1.0"
edition = "2021"
publish = false

[dependencies]
clap = { version = "=4.6.7", features = ["derive"] }
serde = { version = "=1.0.229", features = ["derive"] }
serde_json = "=1.0.154"
miette = { version = "=5.10.0", features = ["fancy"] }
thiserror = "=1.0.69"
ratatui = "=0.30.2"
crossterm = "=0.29.0"
trie-rs = "*"
text_align = "*"
