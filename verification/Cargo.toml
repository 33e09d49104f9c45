[package]
name = "ditto"
version = "0.1.0"
edition = "2021"
publish = false

[dependencies]
anyhow = "1"
clap = { version = "4", features = ["derive"] }
console = "*"
dirs = "*"
serde = { version = "1", features = ["derive"] }
similar = "2"
thiserror = "*"
toml = "*"
toml_edit = "*"
