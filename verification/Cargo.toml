[package]
name = "invisible_char_detector"
version = "0.1.0"
edition = "2021"

[dependencies]
glob = "0.3"
serde = { version = "1", features = ["derive"] }
serde_json = "1"
