[package]
name = "freopen_chat_bot"
version = "0.1.0"
edition = "2021"
publish = false

[dependencies]
anyhow = "=1.0.104"
bytes = "=1.12.1"
chrono = "=0.4.45"
dotenv = "=0.15.0"
env_logger = "=0.9.3"
feed-rs = "=1.5.3"
futures = "=0.3.34"
image = "=0.23.14"
lazy_static = "=1.5.1"
log = "=0.4.34"
regex = "=1.13.1"
reqwest = { version = "=0.11.27", features = ["json", "multipart"] }
rustbreak = { version = "=2.0.0", features = ["yaml_enc"] }
serde = { version = "=1.0.229", features = ["derive"] }
serde_json = "=1.0.154"
serenity = "=0.10.10"
teloxide = { version = "=0.5.3", features = ["auto-send", "macros"] }
tokio = { version = "=1.54.1", features = ["macros", "rt-multi-thread", "time"] }
tokio-stream = "=0.1.19"
tokio-util = { version = "=0.6.10", features = ["codec"] }
