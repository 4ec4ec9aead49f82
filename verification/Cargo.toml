[package]
name = "sentiment_analyzer"
version = "0.1.0"
edition = "2021"
publish = false

[dependencies]
vader_sentiment = "*"
clap = { version = "4", features = ["derive"] }
tokio = { version = "1", features = ["rt", "macros"] }
log = "0.4"
env_logger = "*"
thiserror = "*"
