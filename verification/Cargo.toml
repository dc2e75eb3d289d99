[package]
name = "diamond"
version = "0.1.0"
edition = "2021"
publish = false

[dependencies]
bincode = { version = "2", features = ["derive"] }
clap = { version = "4", features = ["derive"] }
