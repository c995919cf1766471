[package]
name = "mail_notifier"
version = "0.1.0"
edition = "2021"
publish = false

[dependencies]
serde_yaml_bw = "=2.5.8"
serde = { version = "=1.0.229", features = ["derive"] }
serde_json = "=1.0.154"
thiserror = "=2.0.21"
tokio = { version = "=1.54.1", features = ["rt-multi-thread", "macros", "net", "time", "fs", "sync"] }
futures-util = "=0.3.34"
async-imap = { version = "=0.12.0", default-features = false, features = ["runtime-tokio"] }
tokio-rustls = "=0.26.6"
rustls = "=0.23.46"
rustls-native-certs = "=0.8.5"
tracing = "=0.1.44"
tracing-subscriber = "=0.3.23"
color-eyre = "=0.6.5"
envfury = "=0.3.0"
dirs = "=7.0.0"
either = "=1.19.0"
keyring-core = "=1.0.1"
dbus-secret-service-keyring-store = { version = "=1.0.1", features = ["vendored", "crypto-rust"] }
oauth2 = "=5.0.0"
ratatui = "*"
crossterm = "*"
slotmap = "*"
