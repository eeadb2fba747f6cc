[package]
name = "crawler"
version = "0.1.0"
edition = "2021"
publish = false

[dependencies]
regex = "=1.13.1"
serde = { version = "=1.0.229", features = ["derive"] }
serde_json = "=1.0.154"
scraper = "=0.29.0"
bcrypt = "=0.19.3"
uuid = { version = "=1.29.0", features = ["v4"] }
sha2 = "=0.10.9"
chrono = "=0.4.45"
jsonwebtoken = { version = "=11.1.0", features = ["rust_crypto"] }
serde_json_path = "=0.7.2"
reqwest = { version = "*", default-features = false }
