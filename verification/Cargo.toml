[package]
name = "weecord"
version = "0.2.0"
edition = "2021"
publish = false

[dependencies]
chrono = { version = "0.4", default-features = false, features = ["std"] }
serde = { version = "1", features = ["derive"] }
serde_json = "1"
twilight = "*"
twilight-gateway = "*"
twilight-model = "*"
weechat = "*"
