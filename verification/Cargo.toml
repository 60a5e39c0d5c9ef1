[package]
name = "mosaic"
version = "0.1.0"
edition = "2021"
publish = false

[dependencies]
jiff = "*"
rust_decimal = "*"
scraper = "*"
serde = { version = "*", features = ["derive"] }
serde_json = "*"
reqwest = { version = "*", features = ["blocking", "cookies"] }
rusqlite = { version = "*", features = ["bundled"] }
dirs = "*"
toml = "*"
log = "*"
env_logger = "*"
anyhow = "*"
thiserror = "*"
clap = { version = "*", features = ["derive"] }
open = "*"
