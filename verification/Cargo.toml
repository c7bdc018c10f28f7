[package]
name = "telegram_ranger"
version = "0.1.0"
edition = "2021"
publish = false

[dependencies]
anyhow = "*"
chrono = "*"
dashmap = "*"
dotenvy = "*"
image = "0.23"
imageproc = "0.22"
log = "*"
pretty_env_logger = "*"
rand = "0.9"
rusttype = "0.9"
serde = { version = "*", features = ["derive"] }
serde_json = "*"
takecell = "=0.1.1"
teloxide = "0.13"
tokio = { version = "*", features = ["rt-multi-thread", "macros", "time"] }
