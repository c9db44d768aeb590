[package]
name = "meilisearch-cli"
version = "0.1.0"
edition = "2021"
publish = false

[dependencies]
anyhow = "1"
clap = { version = "4", features = ["derive"] }
clap_complete = "4"
colored_json = "5"
crossterm = "0.28"
dialoguer = "0.11"
dirs = "6"
flate2 = "1"
futures-util = "0.3"
indicatif = "0.17"
ratatui = { version = "0.29", features = ["unstable-rendered-line-info"] }
reqwest = { version = "0.12", default-features = false, features = ["json", "stream", "rustls-tls"] }
serde = { version = "1", features = ["derive"] }
serde_json = "1"
tar = "0.4"
tokio = { version = "1", features = ["full"] }
toml = "0.8"
which = "7"
