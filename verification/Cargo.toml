[package]
name = "staple"
version = "0.1.0"
edition = "2021"
publish = false

[dependencies]
chrono = "0.4"
pulldown-cmark = "0.9"
serde_json = "1"
serde = { version = "1", features = ["derive"] }
toml = "0.5"
tera = { version = "1", default-features = false }
walkdir = "2"
notify = "4"
fs2 = "0.4"
copy_dir = "0.1"
