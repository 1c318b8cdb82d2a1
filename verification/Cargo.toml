[package]
name = "cave"
version = "0.1.0"
edition = "2021"
publish = false

[dependencies]
anyhow = "1"
axum = "0.7"
clap = { version = "4", features = ["derive"] }
console = "0.15"
crossterm = "0.28"
dialoguer = { version = "0.11", features = ["fuzzy-select"] }
dirs = "5"
futures-util = "0.3"
indicatif = "0.17"
libc = "0.2"
ratatui = "0.29"
reqwest = { version = "0.12", default-features = false, features = ["stream", "rustls-tls"] }
serde = { version = "1", features = ["derive"] }
ssh2 = "0.9"
tokio = { version = "1", features = ["full"] }
toml = "0.8"
tower-http = { version = "0.5", features = ["fs"] }
