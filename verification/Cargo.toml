[package]
name = "chromix"
version = "0.1.0"
edition = "2021"
publish = false

[dependencies]
clap = { version = "4", features = ["derive"] }
serde = { version = "1", features = ["derive"] }
serde_json = "1"
owo-colors = "4"
arboard = { version = "3", default-features = false }
atty = "0.2"
terminal-light = "1"
