[package]
name = "vhost_enumerator"
version = "0.1.0"
edition = "2021"
publish = false

[dependencies]
anyhow = "1"
clap = { version = "4", features = ["derive"] }
dirs = "5"
rand = "0.8"
regex = "1"
reqwest = "0.12"
tokio = { version = "1", features = ["full"] }
