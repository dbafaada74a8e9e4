[package]
name = "config_hub"
version = "0.1.0"
edition = "2021"
publish = false

[dependencies]
actix = "*"
actix-web = "*"
actix-web-actors = "*"
env_logger = "*"
log = "*"
rand = "*"
reqwest = { version = "*", default-features = false, features = ["json"] }
serde = { version = "*", features = ["derive"] }
serde_json = "*"
tokio = { version = "*", features = ["rt-multi-thread", "macros", "time"] }
