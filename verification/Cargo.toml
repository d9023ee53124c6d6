[package]
name = "qbittorrent"
version = "0.4.0"
edition = "2021"
publish = false

[dependencies]
reqwest = { version = "0.11", default-features = false }
tokio = { version = "1", features = ["macros", "rt", "sync", "time"] }
clap = "4"
