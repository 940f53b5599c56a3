[package]
name = "axysbrowser"
version = "0.1.0"
edition = "2021"
publish = false

[dependencies]
url = "2"
sys-locale = "0.3"
rust-i18n = "3"
serde = { version = "1", features = ["derive"] }
toml = "0.8"
gtk4 = "*"
webkit6 = "*"
