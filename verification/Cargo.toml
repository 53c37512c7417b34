[package]
name = "twitch_recover"
version = "0.1.0"
edition = "2021"
publish = false

[dependencies]
rust-crypto = "=0.2.36"
rand = "=0.8.8"
chrono = "=0.4.45"
reqwest = { version = "=0.11.27", default-features = false, features = ["json", "rustls-tls"] }
tokio = { version = "1", features = ["full"] }
serde = { version = "1", features = ["derive"] }
clap = { version = "4", features = ["derive"] }
dialoguer = "=0.10.4"
color-eyre = "0.6"
thiserror = "1"
