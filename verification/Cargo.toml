[package]
name = "discord-twitch-notif"
version = "0.1.0"
edition = "2021"
publish = false

[dependencies]
anyhow = "1"
axum = "=0.6.20"
bonsaidb = { version = "0.5", default-features = false, features = ["local", "async"] }
clap = { version = "4", features = ["derive"] }
futures = "0.3"
hyper = { version = "0.14", features = ["full"] }
poise = "0.5"
rand = "=0.8.8"
reqwest = { version = "0.11", default-features = false, features = ["rustls-tls"] }
retainer = "0.3"
serde = { version = "1", features = ["derive"] }
serde_json = "=1.0.154"
tokio = { version = "1", features = ["full"] }
tokio-tungstenite = { version = "0.20", features = ["rustls-tls-webpki-roots"] }
tracing = "0.1"
tracing-subscriber = "0.3"
twitch_api = { version = "=0.7.0-rc.7", features = ["all", "reqwest"] }
