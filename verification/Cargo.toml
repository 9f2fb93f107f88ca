[package]
name = "macrdp"
version = "0.1.0"
edition = "2021"
publish = false

[dependencies]
image = { version = "0.25", default-features = false, features = ["png", "tiff", "jpeg"] }
rand = "0.8"
dirs = "5"
ironrdp-pdu = "*"
anyhow = "1"
serde = { version = "1", features = ["derive"] }
serde_json = "1"
toml = "0.8"
clap = { version = "4", features = ["derive"] }
tracing = "0.1"
tracing-subscriber = { version = "0.3", features = ["env-filter", "json"] }
chrono = "0.4"
rcgen = "0.13"
socket2 = "0.5"
tokio = { version = "1", features = ["full"] }
rpassword = "7"

[dev-dependencies]
