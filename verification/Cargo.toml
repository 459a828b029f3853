[package]
name = "clipboard_formats"
version = "0.1.0"
edition = "2021"
publish = false

[dependencies]
base64 = "0.22"
quick-xml = "*"
clipboard-win = "*"
anyhow = "1"
tracing = "0.1"
tracing-subscriber = { version = "0.3", features = ["env-filter"] }
