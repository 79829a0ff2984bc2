[package]
name = "recolor"
version = "0.1.2"
edition = "2021"
publish = false

[dependencies]
clap = "4"
image = "0.24"
serde = { version = "1", features = ["derive"] }
serde_json = "1"
