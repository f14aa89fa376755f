[package]
name = "goku"
version = "0.1.0"
edition = "2021"
publish = false

[dependencies]
chrono = "0.4"
clap = { version = "4", features = ["derive"] }
http = "1"
serde = { version = "1", features = ["derive"] }
serde_json = "1"
ureq = "2"
url = "2"
