[package]
name = "rustify"
version = "0.1.0"
edition = "2021"
publish = false

[dependencies]
dirs = "5"
log = "0.4"
rodio = "0.17"
serde = { version = "1", features = ["derive"] }
serde_json = "1"
walkdir = "2"
