[package]
name = "cargo-subcommand"
version = "0.1.0"
edition = "2021"
publish = false

[dependencies]
clap = { version = "4", features = ["derive"] }
current_platform = "0.2"
dunce = "1"
glob = "0.3"
serde = { version = "1", features = ["derive"] }
toml = "0.8"
