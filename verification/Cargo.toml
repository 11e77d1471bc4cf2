[package]
name = "modpack_installer"
version = "0.1.0"
edition = "2021"
publish = false

[dependencies]
anyhow = "1"
chrono = { version = "0.4", features = ["serde"] }
ferinth = "2"
futures-util = "0.3"
hex = "0.4"
log = "0.4"
reqwest = { version = "0.12", default-features = false, features = ["stream", "rustls-tls"] }
semver = { version = "1", features = ["serde"] }
serde = { version = "1", features = ["derive"] }
serde_json = "1"
serde_yaml = "0.9"
sha1 = "0.10"
urlencoding = "2"
uuid = { version = "1", features = ["v4"] }
winapi = { version = "0.3", features = ["winbase"] }
zip = { version = "2", default-features = false, features = ["deflate"] }
