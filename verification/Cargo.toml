[package]
name = "twitch_rcon"
version = "0.1.0"
edition = "2021"
publish = false

[dependencies]
anyhow = "=1.0.104"
console = "=0.15.11"
fastrand = "=1.9.0"
flume = "=0.10.14"
futures-util = { version = "=0.3.34", features = ["sink"] }
log = "=0.4.35"
notify = "=5.2.0"
parking_lot = "=0.12.5"
rcon = { version = "=0.6.0", features = ["rt-tokio"] }
reqwest = { version = "=0.11.27", default-features = false, features = ["rustls-tls"] }
serde = { version = "=1.0.229", features = ["derive"] }
serde_json = "=1.0.154"
simplelog = "=0.12.2"
time = { version = "=0.3.55", features = ["formatting", "local-offset", "macros"] }
tokio = { version = "=1.54.1", features = ["full"] }
tokio-tungstenite = { version = "=0.17.2", features = ["rustls-tls-webpki-roots"] }
tokio-util = "=0.7.20"
toml_edit = { version = "=0.15.0", features = ["serde"] }
tungstenite = "=0.17.3"
twitch_api2 = { version = "=0.6.1", features = ["pubsub"] }
twitch_oauth2 = { version = "=0.6.1", features = ["reqwest_client"] }
