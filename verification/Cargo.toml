[package]
name = "cargo-flow"
version = "0.1.0"
edition = "2021"
publish = false

[dependencies]
anyhow = "1"
cargo_metadata = "0.18"
clap = { version = "4", features = ["derive"] }
indenter = "0.3"
serde = { version = "1", features = ["derive"] }
serde_yaml = "0.9"
