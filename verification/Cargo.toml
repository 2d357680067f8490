[package]
name = "rootle-gitlab"
version = "0.5.0"
edition = "2021"
publish = false

[dependencies]
base64 = "0.22"
dirs = "6"
parking_lot = "0.12"
reqwest = { version = "0.12", default-features = false, features = ["blocking", "json", "rustls-tls"] }
serde = { version = "1", features = ["derive"] }
serde_json = "1"
sha1 = "0.10"
thiserror = "2"
