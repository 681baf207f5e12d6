[package]
name = "bible_refs"
version = "0.1.0"
edition = "2021"
publish = false

[dependencies]
fuzzy-matcher = "=0.3.7"
anyhow = "=1.0.104"
serde = { version = "=1.0.229", features = ["derive"] }
serde_json = "=1.0.151"
tokio = { version = "=1.53.2", features = ["net", "io-util", "rt-multi-thread", "macros"] }
dotenv = "=0.15.0"
cpal = "=0.18.2"
vosk = "=0.3.1"
crossbeam-channel = "=0.5.17"
rodio = "*"
symphonia = "*"
