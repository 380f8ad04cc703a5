[package]
name = "sni_tray"
version = "0.1.0"
edition = "2021"
publish = false

[dependencies]
anyhow = "*"
serde = { version = "*", features = ["derive"] }
tokio = { version = "*", features = ["sync", "rt", "macros"] }
zbus = "*"
