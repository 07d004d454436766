[package]
name = "kendra"
version = "0.1.0"
edition = "2021"
publish = false

[dependencies]
regex = "=1.13.1"
unicode-width = "=0.2.3"
clap = { version = "=4.6.7", features = ["derive"] }
serde = { version = "=1.0.229", features = ["derive"] }
serde_json = "=1.0.154"
dirs = "=7.0.0"
chrono = { version = "0.4", default-features = false, features = ["clock", "std"] }
uuid = { version = "1", features = ["v4"] }
crossterm = "*"
ratatui = "*"
tokio = { version = "1", features = ["rt", "time", "sync", "macros"] }
tokio-util = "*"
reqwest = { version = "*", default-features = false, features = ["json"] }
