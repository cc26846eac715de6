[package]
name = "badmap"
version = "0.1.0"
edition = "2021"
publish = false

[dependencies]
clap = { version = "4", features = ["derive"] }
dns-lookup = "*"
tokio = { version = "1", features = ["full"] }
