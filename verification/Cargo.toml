[package]
name = "httpie"
version = "0.1.0"
edition = "2021"
publish = false

[dependencies]
anyhow = "=1.0.104"
clap = { version = "=4.6.7", features = ["derive"] }
colored = "=3.1.1"
jsonxf = "=1.1.1"
mime = "=0.3.17"
reqwest = { version = "=0.13.5", default-features = false, features = ["json"] }
serde_json = "=1.0.151"
tokio = { version = "=1.53.2", features = ["io-util", "macros", "net", "rt-multi-thread"] }
