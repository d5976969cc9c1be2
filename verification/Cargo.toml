[package]
name = "move_together"
version = "0.1.0"
edition = "2021"
publish = false

[dependencies]
anyhow = "1"
config = { version = "0.13", default-features = false, features = ["toml"] }
futures = "0.3"
log = "0.4"
log4rs = "1"
serde = { version = "1", features = ["derive"] }
serenity = "0.11"
tokio = { version = "1", features = ["macros", "rt-multi-thread", "time"] }
