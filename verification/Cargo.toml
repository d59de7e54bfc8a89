[package]
name = "whrd"
version = "0.1.0"
edition = "2021"
publish = false

[dependencies]
chrono = "*"
clap = { version = "4", features = ["derive"] }
coreutils_core = "*"
serde = { version = "1", features = ["derive"] }
toml = "*"
