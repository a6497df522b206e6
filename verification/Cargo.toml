[package]
name = "pinepods_pages"
version = "0.1.0"
edition = "2021"
publish = false

[dependencies]
regex = "1"
urlencoding = "2"
ammonia = "4"
htmlentity = "1"
serde_json = "1"
