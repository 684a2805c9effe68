[package]
name = "xcurl"
version = "0.1.0"
edition = "2021"
publish = false

[dependencies]
anyhow = "1"
async-trait = "0.1"
atty = "0.2"
clap = { version = "4", features = ["derive"] }
colored = "2"
http-serde = "2"
lazy_static = "1"
reqwest = { version = "0.12", default-features = false }
serde = { version = "1", features = ["derive"] }
serde_json = "1"
serde_qs = "*"
serde_yaml = "0.9"
syntect = { version = "5", default-features = false, features = ["default-fancy"] }
thiserror = "1"
tokio = { version = "1", features = ["rt-multi-thread", "macros", "fs"] }
url = "2"
