[package]
name = "coriander_bot"
version = "0.1.0"
edition = "2021"
publish = false

[dependencies]
chrono = "0.4"
dashmap = "=6.2.1"
dptree = "0.3"
linkify = "=0.11.0"
log = "0.4"
once_cell = "1"
pretty_env_logger = "0.5"
shlex = "=2.0.1"
takecell = "=0.1.1"
teloxide = { version = "=0.12.2", default-features = false, features = ["macros", "ctrlc_handler", "rustls"] }
tokio = { version = "1", features = ["rt-multi-thread", "macros"] }
url-track-cleaner = "*"
