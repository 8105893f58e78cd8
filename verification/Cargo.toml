[package]
name = "kayak_ui"
version = "0.1.0"
edition = "2021"
publish = false

[dependencies]
dashmap = "5"
indexmap = "1.9"
fancy-regex = "0.11"
morphorm = "0.3"
