[package]
name = "m3u8_downloader_rs"
version = "0.1.0"
edition = "2021"
publish = false

[dependencies]
aes = "0.8"
anyhow = "1"
cbc = "0.1"
clap = { version = "4", features = ["derive"] }
egui = "0.27"
env_logger = { version = "0.11", default-features = false }
futures = "0.3"
hex = "0.4"
indicatif = "0.17"
log = "0.4"
m3u8-rs = "*"
poll-promise = "0.3"
reqwest = { version = "0.12", default-features = false, features = ["default-tls"] }
rfd = { version = "0.14", default-features = false, features = ["xdg-portal", "tokio"] }
sha256 = { version = "1", default-features = false }
tokio = { version = "1", features = ["full"] }
url = "2"
