[package]
name = "rshell"
version = "0.1.0"
edition = "2021"
publish = false

[dependencies]
anyhow = "1"
chrono = "0.4"
dirs = "6"
pangocairo = "0.21"
portable-pty = "0.7"
relm4 = "0.10"
serde = { version = "1", features = ["derive"] }
serde_json = "1"
smol = "1"
unicode-width = "0.2"
uuid = { version = "1", features = ["v4", "serde"] }
wezterm-ssh = "0.4"
