[package]
name = "sinatra"
version = "0.1.0"
edition = "2021"
publish = false

[dependencies]
uuid = { version = "1", features = ["v4"] }
serde = { version = "1", features = ["derive"] }
serde_json = "1"
tokio = { version = "1", features = ["full"] }
async-trait = "0.1"
tempfile = "3"
deadpool-redis = "*"
dotenv = "0.15"
ffmpeg-next = "*"
