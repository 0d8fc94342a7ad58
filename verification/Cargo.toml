[package]
name = "dubrust"
version = "0.1.0"
edition = "2021"
publish = false

[dependencies]
anyhow = "=1.0.104"
serde = { version = "=1.0.229", features = ["derive"] }
serde_json = "=1.0.154"
hound = "=3.5.1"
ureq = "=2.12.1"
zip = { version = "=2.6.1", default-features = false, features = ["deflate"] }
ort = { version = "=2.0.0-rc.10", default-features = false, features = ["load-dynamic", "std"] }
