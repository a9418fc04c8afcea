[package]
name = "tanker"
version = "0.1.0"
edition = "2021"
publish = false

[dependencies]
anyhow = "1"
bevy = { version = "0.12", default-features = false }
bevy_replicon = "0.18"
dotenv = "0.15"
serde = { version = "1", features = ["derive"] }
