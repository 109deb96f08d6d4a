[package]
name = "almk"
version = "0.1.0"
edition = "2021"
publish = false

[dependencies]
clap = { version = "4.5", features = ["derive"] }
serde = { version = "1", features = ["derive"] }
serde_json = "1"
sha2 = "0.10"
toml = "0.9"
walkdir = "2.5"
git2 = { version = "0.20", default-features = false }
ureq = { version = "2", default-features = false }
zip = { version = "2", default-features = false, features = ["deflate"] }
