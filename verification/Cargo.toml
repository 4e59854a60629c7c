[package]
name = "quaero_engines"
version = "0.1.0"
edition = "2021"
publish = false

[dependencies]
anyhttp = "=0.0.0"
chrono = "=0.4.45"
html-escape = "=0.2.15"
http = "=1.5.0"

[dev-dependencies]
anyhow = "=1.0.104"
bytes = "=1.12.1"
url = "=2.5.8"
