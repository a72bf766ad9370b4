[package]
name = "xplr_config"
version = "0.1.0"
edition = "2021"
publish = false

[dependencies]
anyhow = "1"
indexmap = { version = "1.6", features = ["serde"] }
serde = { version = "1", features = ["derive"] }
tui = { version = "0.14", default-features = false, features = ["serde"] }
