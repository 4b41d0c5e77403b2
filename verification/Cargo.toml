[package]
name = "pty_sessions"
version = "0.1.0"
edition = "2021"
publish = false

[dependencies]
portable-pty = "0.9.0"
tauri = { version = "2", default-features = false }
tokio = { version = "1", features = ["rt", "sync"] }
serde = { version = "1", features = ["derive"] }
thiserror = "1"
