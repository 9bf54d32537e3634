[package]
name = "clockwerk"
version = "0.2.0"
edition = "2021"
publish = false

[dependencies]
chrono = "0.4"
url = "2"
x509-parser = "*"
serde = { version = "1", features = ["derive"] }
serde_json = "1"
reqwest = { version = "0.12", features = ["json"] }
rusqlite = { version = "*", features = ["bundled"] }
keyring = "3"
native-tls = "0.2"
tokio = { version = "1", features = ["full"] }
tracing = "0.1"
thiserror = "*"
