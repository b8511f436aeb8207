[package]
name = "slot_cli"
version = "0.1.0"
edition = "2021"
publish = false

[dependencies]
anyhow = "1"
chrono = "0.4"
clap = { version = "4", features = ["derive"] }
colored = "2"
comfy-table = "7"
ctrlc = "3"
dialoguer = "0.11"
futures = "0.3"
reqwest = { version = "0.12", default-features = false, features = ["json", "rustls-tls"] }
serde = { version = "1", features = ["derive"] }
serde_json = "1"
starknet = "*"
tokio = { version = "1", features = ["full"] }
toml = "0.8"
url = "2"
