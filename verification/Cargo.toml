[package]
name = "herd"
version = "0.1.0"
edition = "2021"
publish = false

[dependencies]
sha2 = "0.10"
dirs = "5"
alacritty_terminal = "0.24"
anyhow = "1"
thiserror = "1"
nix = { version = "0.29", features = ["signal"] }
notify = "6"
notify-rust = "4"
parking_lot = "0.12"
serde = { version = "1", features = ["derive"] }
serde_json = "1"
tokio = { version = "1", features = ["sync"] }
toml = "0.8"
tracing = "0.1"
tracing-subscriber = { version = "0.3", features = ["env-filter"] }
