[package]
name = "rustscan"
version = "0.1.0"
edition = "2021"
publish = false

[dependencies]
regex = "*"
anyhow = "*"
clap = { version = "*", features = ["derive"] }
colored = "*"
csv = "*"
futures = "*"
indicatif = "*"
serde = { version = "*", features = ["derive"] }
serde_json = "*"
socket2 = "*"
tokio = { version = "*", features = ["full"] }
