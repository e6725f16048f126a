[package]
name = "appwrite"
version = "0.1.0"
edition = "2021"
publish = false

[dependencies]
url = "=2.5.8"
mime_guess = "=2.0.5"
reqwest = { version = "=0.13.5", default-features = false, features = ["form", "multipart", "query"] }
tokio = { version = "=1.53.2", default-features = false, features = ["fs", "io-util"] }
