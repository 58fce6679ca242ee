[package]
name = "hostinfo"
version = "0.1.0"
edition = "2021"
publish = false

[dependencies]
gethostname = "=0.2.3"
psutil = { version = "=3.3.0", default-features = false, features = ["host"] }
rocket = { version = "0.5", features = ["json"] }
rocket_okapi = { version = "0.9", features = ["swagger"] }
serde = { version = "=1.0.229", features = ["derive"] }
serde_json = "=1.0.154"
