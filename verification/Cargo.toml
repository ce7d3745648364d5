[package]
name = "dn"
version = "0.1.1"
edition = "2021"
publish = false

[dependencies]
anyhow = "=1.0.104"
chrono = { version = "=0.4.45", default-features = false, features = ["clock", "std"] }
clap = { version = "=4.6.7", features = ["derive"] }
icu_collator = "=1.5.0"
regex = "=1.13.1"
regex-syntax = { version = "=0.8.11", features = ["unicode-perl"] }
serde = { version = "=1.0.229", features = ["derive"] }
toml = "=0.8.23"
