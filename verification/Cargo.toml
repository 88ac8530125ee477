[package]
name = "rust_toolchain_manifest"
version = "0.1.0"
edition = "2021"
publish = false

[dependencies]
chrono = "0.4"
target-lexicon = "0.12"
toml = "0.8"
serde = { version = "1", features = ["derive"] }
clap = { version = "4", features = ["derive"] }
