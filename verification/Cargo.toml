[package]
name = "forklift"
version = "0.1.0"
edition = "2021"
publish = false

[dependencies]
anyhow = "*"
clap = { version = "*", features = ["derive"] }
indicatif = "*"
owo-colors = "*"
rusqlite = { version = "*", features = ["bundled"] }
serde = { version = "*", features = ["derive"] }
serde_json = "*"
tracing = "*"
tracing-appender = "*"
tracing-logfmt = "*"
tracing-subscriber = { version = "*", features = ["env-filter"] }
unicode-normalization = "*"
