[package]
name = "glaciers"
version = "0.1.0"
edition = "2021"
publish = false

[dependencies]
alloy = { version = "*", default-features = false, features = ["std", "json-abi", "dyn-abi"] }
serde_json = "*"
toml = "*"
tokio = { version = "*", features = ["rt-multi-thread", "sync", "macros"] }
clap = { version = "*", features = ["derive"] }
chrono = "*"
thiserror = "*"
