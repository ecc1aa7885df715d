[package]
name = "server_voice_s3r"
version = "0.1.0"
edition = "2021"
publish = false

[dependencies]
anyhow = "1"
base64 = "0.22"
chrono = "0.4"
cpal = "0.15"
reqwest = { version = "0.12", features = ["blocking", "json", "multipart"] }
serde_json = "1"
tungstenite = { version = "0.24", features = ["native-tls"] }
