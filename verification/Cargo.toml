[package]
name = "proxa"
version = "0.1.0"
edition = "2021"
publish = false

[dependencies]
aec3 = "=0.1.8"
anyhow = "=1.0.104"
bincode = "=1.3.3"
clap = { version = "=4.6.7", features = ["derive"] }
cpal = { version = "=0.18.2", features = ["pipewire"] }
crossterm = "=0.29.0"
env_logger = "=0.11.11"
log = "=0.4.35"
ndarray = "=0.17.2"
nnnoiseless = { version = "=0.5.2", default-features = false }
ogg = "=0.9.2"
opus = "=0.4.0"
parking_lot = "=0.12.5"
quinn = "=0.11.12"
rand = "=0.9.5"
ratatui = { version = "=0.30.2", default-features = false, features = ["crossterm"] }
rust-embed = "=8.13.0"
rustls = "=0.23.46"
serde = { version = "=1.0.229", features = ["derive"] }
thiserror = "=2.0.21"
tokio = { version = "=1.54.1", features = ["full"] }
