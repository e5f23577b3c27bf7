[package]
name = "site_content"
version = "0.1.0"
edition = "2021"
publish = false

[dependencies]
tera = { version = "*", default-features = false }
serde_json = "*"
serde = "*"
