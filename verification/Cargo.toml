[package]
name = "docx_lite"
version = "0.2.0"
edition = "2021"
publish = false

[dependencies]
quick-xml = "0.36"
zip = { version = "2.2", default-features = false, features = ["deflate"] }
thiserror = "1"
