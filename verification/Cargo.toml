[package]
name = "kit"
version = "0.1.0"
edition = "2021"
publish = false

[dependencies]
syn = { version = "2", features = ["full", "extra-traits"] }
regex = "1"
toml = "0.8"
uuid = { version = "1", features = ["v4"] }
hex = "0.4"
alloy-primitives = "1"
alloy-sol-types = "1"
serde = { version = "1", features = ["derive"] }
serde_json = "1"
walkdir = "2"
tracing = "0.1"
tracing-subscriber = "0.3"
color-eyre = "0.6"
fs-err = "2"
anyhow = "1"
tokio = { version = "1", features = ["full"] }
reqwest = { version = "0.12", default-features = false, features = ["json"] }
