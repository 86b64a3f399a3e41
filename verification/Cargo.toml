[package]
name = "sprout"
version = "0.1.0"
edition = "2021"
publish = false

[dependencies]
anyhow = "*"
clap = { version = "*", features = ["derive"] }
passwords = "*"
rustic_backend = { version = "*", default-features = false }
rustic_core = "*"
serde = { version = "*", features = ["derive"] }
serde_yaml = "*"
sha2 = "*"
tempfile = "*"
