[package]
name = "medibot"
version = "0.1.0"
edition = "2021"
publish = false

[dependencies]
chrono = "=0.4.45"
chrono-tz = "=0.10.4"
uuid = { version = "=1.27.0", features = ["v4"] }
teloxide = { version = "=0.13.0", features = ["macros"] }
tokio = { version = "=1.53.2", features = ["rt-multi-thread", "macros"] }
redis = "=1.7.1"
log = "=0.4.34"
pretty_env_logger = "=0.5.0"
dotenv = "=0.15.0"
dptree = "=0.3.0"
futures = "=0.3.34"
takecell = "=0.1.1"
