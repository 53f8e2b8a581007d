[package]
name = "cliphist"
version = "0.1.0"
edition = "2021"
publish = false

[dependencies]
chrono = "*"
arboard = "*"
clap = { version = "*", features = ["derive"] }
colored = "*"
tokio = { version = "*", features = ["rt-multi-thread", "macros"] }
