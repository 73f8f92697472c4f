[package]
name = "codex_pool"
version = "0.1.0"
edition = "2021"
publish = false

[dependencies]
anyhow = "1"
base64 = "0.22"
chrono = "0.4"
clap = { version = "4", features = ["derive"] }
libc = "0.2"
rusqlite = { version = "*", features = ["bundled"] }
serde_json = "1"
tempfile = "3"
