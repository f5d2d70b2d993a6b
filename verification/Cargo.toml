[package]
name = "auto-voice"
version = "0.2.0"
edition = "2021"
publish = false

[dependencies]
anyhow = "1"
arboard = { version = "3", default-features = false }
chrono = { version = "0.4", default-features = false, features = ["clock"] }
clap = { version = "4", default-features = false, features = ["std", "help", "derive"] }
ctrlc = "3"
directories = "6"
eframe = { version = "0.34", default-features = false, features = ["glow", "default_fonts", "x11"] }
reqwest = { version = "0.12", default-features = false, features = ["blocking", "json"] }
rubato = "0.16"
serde = { version = "1", features = ["derive"] }
serde_json = "1"
skrifa = "0.40"
symphonia = { version = "0.5", default-features = false, features = ["mp3", "wav", "pcm", "flac", "ogg", "vorbis", "aac", "isomp4"] }
tokio = { version = "1", features = ["macros", "rt-multi-thread"] }
toml = "0.8"
tracing = "0.1"
tracing-subscriber = { version = "0.3", default-features = false, features = ["fmt", "env-filter"] }
