[package]
name = "jwxt_client"
version = "0.1.0"
edition = "2021"
publish = false

[dependencies]
aes = "=0.8.4"
base64 = "=0.22.1"
reqwest = { version = "=0.13.5", default-features = false, features = ["cookies", "form"] }
reqwest_cookie_store = "=0.10.0"
scraper = "=0.27.0"
serde = { version = "=1.0.229", features = ["derive"] }
tokio = { version = "=1.53.2", features = ["sync", "rt-multi-thread", "macros"] }
once_cell = "=1.21.4"
