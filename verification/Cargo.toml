[package]
name = "artscraper"
version = "0.1.0"
edition = "2021"
publish = false

[dependencies]
url = "*"
serde_json = "*"
visdom = "*"
hmac = "*"
sha1 = "*"
serde = { version = "*", features = ["derive"] }
reqwest = { version = "*", default-features = false }
tokio = { version = "*", default-features = false, features = ["rt-multi-thread", "macros"] }
axum = "*"
dns-lookup = "*"
