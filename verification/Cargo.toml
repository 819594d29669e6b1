[package]
name = "onepanel_ci"
version = "0.1.0"
edition = "2021"
publish = false

[dependencies]
md5 = "0.7"
serde_json = "1"
reqwest = { version = "0.12", default-features = false, features = ["blocking", "json", "multipart"] }
