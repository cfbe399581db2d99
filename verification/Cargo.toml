[package]
name = "openrouter_proxy"
version = "0.1.0"
edition = "2021"
publish = false

[dependencies]
rand = "0.9"
actix-web = "4"
awc = "3"
anyhow = "1"
clap = { version = "4", features = ["derive"] }
csv = "1"
futures-util = "0.3"
reqwest = { version = "0.12", default-features = false, features = ["json"] }
serde = { version = "1", features = ["derive"] }
serde_json = "1"
serde_path_to_error = "0.1"
thiserror = "2"
