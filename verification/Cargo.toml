[package]
name = "recsimu"
version = "0.1.0"
edition = "2021"
publish = false

[dependencies]
bincode = "1.3"
rand = "0.8"
serde = { version = "1", features = ["derive"] }
serde_json = "1"
clap = "4"
