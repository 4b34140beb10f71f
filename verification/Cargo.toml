[package]
name = "osucraft"
version = "0.1.0"
edition = "2021"
publish = false

[dependencies]
anyhow = "1"
bevy_ecs = "0.9"
colored = "2"
directories = "4"
fuzzy-matcher = "0.3"
osu-file-parser = "1.1"
rodio = "0.17"
serde = { version = "1", features = ["derive"] }
serde_json = "1"
tracing = "0.1"
tracing-subscriber = "0.3"
