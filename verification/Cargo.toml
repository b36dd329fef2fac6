[package]
name = "spotify_dl"
version = "0.1.0"
edition = "2021"
publish = false

[dependencies]
anyhow = "1"
bytes = "1"
futures = "0.3"
indicatif = "0.17"
tokio = { version = "1", features = ["rt", "sync"] }
tracing = "0.1"
