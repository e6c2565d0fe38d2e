[package]
name = "android-kvm"
version = "0.1.0"
edition = "2021"
publish = false

[dependencies]
anyhow = "1"
clap = { version = "4", features = ["derive"] }
core-graphics = "*"
dirs = "*"
serde = { version = "1", features = ["derive"] }
toml = "*"
tracing = "0.1"
