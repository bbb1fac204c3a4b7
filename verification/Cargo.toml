[package]
name = "openrouter-widget"
version = "0.1.0"
edition = "2021"
publish = false

[dependencies]
semver = "1"
hex = "0.4"
sha2 = "0.10"
ed25519-dalek = "2"
chrono = "0.4"
serde = { version = "1", features = ["derive"] }
serde_json = "1"
reqwest = { version = "0.12", default-features = false, features = ["json", "rustls-tls"] }
rusqlite = { version = "0.32", features = ["bundled"] }
keyring = "3"
dirs = "5"
tempfile = "3"
thiserror = "2"
tokio = { version = "1", features = ["rt-multi-thread", "macros"] }
