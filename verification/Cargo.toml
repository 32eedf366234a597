[package]
name = "node2text"
version = "0.1.0"
edition = "2021"
publish = false

[dependencies]
atty = "0.2"
clap = { version = "*", features = ["derive"] }
scraper = "*"
