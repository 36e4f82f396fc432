[package]
name = "music-groomer"
version = "0.1.0"
edition = "2021"
publish = false

[dependencies]
sha2 = "=0.10.9"
serde = { version = "=1.0.229", features = ["derive"] }
serde_json = "=1.0.154"
clap = { version = "=4.6.7", features = ["derive"] }
urlencoding = "=2.1.3"
image = { version = "0.25", default-features = false, features = ["png", "jpeg", "gif", "webp"] }
ureq = { version = "3", features = ["json"] }
toml = "*"
directories = "*"
fs2 = "0.4"
tempfile = "3"
