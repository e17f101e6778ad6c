[package]
name = "text_to_video"
version = "0.1.0"
edition = "2021"
publish = false

[dependencies]
regex = "1"
tokio = { version = "1", features = ["process", "rt-multi-thread", "macros", "io-util", "fs"] }
reqwest = { version = "0.11", default-features = false }
serde_json = "1"
urlencoding = "2"
dotenv = "0.15"
