[package]
name = "chessbot"
version = "0.1.0"
edition = "2021"
publish = false

[dependencies]
ansi_term = "0.12"
curl = "0.4"
rand = "0.8"
reqwest = { version = "0.11", default-features = false, features = ["blocking"] }
serde = { version = "1", features = ["derive"] }
serde_json = "1"
