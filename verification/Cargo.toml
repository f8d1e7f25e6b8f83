[package]
name = "ola_sema"
version = "0.1.0"
edition = "2021"
publish = false

[dependencies]
anyhow = "1"
clap = { version = "4", features = ["derive"] }
ethereum-types = "*"
serde_json = "1"
