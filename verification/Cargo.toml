[package]
name = "pskursor"
version = "0.1.0"
edition = "2021"
publish = false

[dependencies]
regex = "1"
evdev = "*"
ratatui = { version = "0.29", default-features = false, features = ["termion"] }
termion = "4"
serde = { version = "1", features = ["derive"] }
serde_json = "1"
thiserror = "*"
tracing = "0.1"
tracing-subscriber = { version = "0.3", features = ["json", "env-filter"] }
