[package]
name = "quiz_buzzer"
version = "0.1.0"
edition = "2021"
publish = false

[dependencies]
rand = "0.8"
heapless = "0.7"
serde = { version = "1", features = ["derive"] }
serde_json = "1"
actix-web = "4"
actix-files = "0.6"
flume = "0.11"
tungstenite = "0.19"
config = { version = "0.13", default-features = false, features = ["toml"] }
env_logger = "0.10"
log = "0.4"
rusty_audio = "1"
