[package]
name = "qmtui"
version = "0.1.0"
edition = "2021"
publish = false

[dependencies]
anyhow = "1"
clap = { version = "4", features = ["derive"] }
crossterm = "0.28"
dirs = "6"
fs2 = "0.4"
futures = "0.3"
fuzzy-matcher = "0.3"
pulldown-cmark = { version = "0.13", default-features = false }
ratatui = "0.29"
serde = { version = "1", features = ["derive"] }
serde_json = "1"
similar = "2"
syntect = { version = "5", default-features = false, features = ["default-fancy"] }
tokio = { version = "1", features = ["full"] }
tokio-tungstenite = "0.26"
toml = "0.8"
unicode-width = "0.2"
