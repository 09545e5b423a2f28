[package]
name = "sparkspeech"
version = "0.1.8"
edition = "2021"
publish = false

[dependencies]
flate2 = "1"
http = "1"
tokio-tungstenite = "*"
base64 = "0.22"
serde = { version = "1", features = ["derive"] }
serde_json = "1"
uuid = { version = "1", features = ["v4"] }
chrono = "0.4"
tokio = { version = "1", features = ["sync", "time", "rt", "macros"] }
futures-util = { version = "0.3", features = ["sink"] }
hound = "3"
reqwest = { version = "0.12", default-features = false, features = ["json", "stream"] }
cpal = "0.15"
arboard = "3"
