[package]
name = "progenitor_client"
version = "0.1.0"
edition = "2021"
publish = false

[dependencies]
reqwest = { version = "*", default-features = false, features = ["json", "multipart", "stream"] }
serde = "*"
serde_urlencoded = "*"
bytes = "*"
futures-core = "*"
percent-encoding = "*"

[dev-dependencies]
serde_json = "*"
