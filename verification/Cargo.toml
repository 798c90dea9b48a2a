[package]
name = "weecord"
version = "0.3.0"
edition = "2021"
publish = false

[dependencies]
rand = "0.8"
time = "0.3"
chrono = "0.4"
serde = { version = "1", features = ["derive"] }
serde_json = "1"
regex = "1"
twilight-model = "0.10"
twilight-cache-inmemory = "0.10"
