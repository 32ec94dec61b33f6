[package]
name = "dark-binding"
version = "0.1.0"
edition = "2021"
publish = false

[dependencies]
regex = "1"
serde = { version = "1", features = ["derive"] }
serde_json = "1"
toml = "0.8"
reqwest = { version = "0.12", features = ["blocking", "json", "native-tls"] }
native-tls = "0.2"
websocket = { version = "0.27", default-features = false, features = ["sync", "sync-ssl"] }
clap = "4"
systray = "0.4"
