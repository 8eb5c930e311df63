[package]
name = "solvanity"
version = "0.1.0"
edition = "2021"
publish = false

[dependencies]
fancy-regex = "*"
solana-sdk = "*"
fuzzy-matcher = "*"
mime_guess = "*"
clap = { version = "*", features = ["derive", "cargo"] }
num-format = "*"
affinity = "*"
serde_json = "*"
anyhow = "*"
ratatui = "*"
crossterm = "*"
toml = "*"
xdg = "*"
chrono = "*"
tui-big-text = "*"
