[package]
name = "weaver_editor"
version = "0.1.0"
edition = "2021"
publish = false

[dependencies]
ropey = "=1.6.1"
web-time = "=1.1.0"
serde = { version = "=1.0.229", features = ["derive"] }
serde_json = "=1.0.154"
toml = "=0.8.23"
blake3 = { version = "1", features = ["pure"] }
postcard = { version = "1", features = ["use-std"] }
thiserror = "2"
