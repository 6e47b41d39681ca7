[package]
name = "tchat"
version = "0.1.0"
edition = "2021"
publish = false

[dependencies]
aes = "0.8"
base64 = "0.22"
bytes = "1"
cbc = { version = "0.1", features = ["alloc"] }
crossbeam = "0.8"
crossterm = "0.28"
directories = "5"
headless_chrome = "1"
parking_lot = "0.12"
pbkdf2 = "0.12"
prost = "0.13"
ratatui = "0.29"
rusqlite = { version = "0.32", features = ["bundled"] }
serde = { version = "1", features = ["derive"] }
serde_json = "1"
sha1 = "0.10"
thiserror = "2"
tiny_http = "0.12"
toml = "0.8"
tracing = "0.1"
tracing-subscriber = "0.3"
ureq = "3"
