[package]
name = "brawler_server"
version = "0.1.0"
edition = "2021"
publish = false

[dependencies]
serde = { version = "=1.0.229", features = ["derive"] }
ron = "=0.12.3"
postcard = { version = "=1.1.3", default-features = false, features = ["alloc"] }
sha2 = "=0.10.9"
serde_json = "=1.0.154"
tiny_http = "0.12"
