[package]
name = "twitch_highlights"
version = "0.1.0"
edition = "2021"
publish = false

[dependencies]
dashmap = "5"
serde = { version = "1", features = ["derive"] }
serde_json = "1"
mongodb = "2"
tokio = { version = "1", features = ["full"] }
reqwest = { version = "0.11", default-features = false, features = ["json", "rustls-tls"] }
tungstenite = { version = "0.18", features = ["rustls-tls-webpki-roots"] }
url = "2"
crossbeam-channel = "0.5"
async-channel = "1"
futures = "0.3"
dotenv = "0.15"
aws-config = "0.51"
aws-sdk-sqs = "0.21"
aws-sdk-s3 = "0.21"
