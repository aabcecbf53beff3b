[package]
name = "httpie"
version = "0.1.0"
edition = "2021"
publish = false

[dependencies]
anyhow = "=1.0.104"
clap = { version = "=3.2.25", features = ["derive"] }
colored = "=2.2.0"
mime = "=0.3.17"
reqwest = { version = "=0.11.27", features = ["json"] }
syntect = { version = "=4.6.0", default-features = false, features = ["default-fancy"] }
tokio = { version = "=1.54.1", features = ["full"] }
