[package]
name = "blippy"
version = "0.1.0"
edition = "2021"
publish = false

[dependencies]
anyhow = "=1.0.104"
crossterm = "=0.29.0"
keyring = "=3.6.3"
rpassword = "=7.5.4"
serde = { version = "=1.0.229", features = ["derive"] }
toml = "=1.1.8"
pulldown-cmark = { version = "0.12", default-features = false }
