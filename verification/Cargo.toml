[package]
name = "vs"
version = "0.1.0"
edition = "2021"
publish = false

[dependencies]
serde = { version = "=1.0.229", features = ["derive"] }
serde_json = "=1.0.154"
serde_yaml = "=0.9.34"
toml = "=0.8.23"
sha2 = "=0.10.9"
sha1 = "=0.10.7"
md-5 = "=0.10.6"
flate2 = "=1.1.10"
tar = "=0.4.46"
xz2 = { version = "=0.1.7", features = ["static"] }
zip = { version = "=2.6.1", default-features = false, features = ["deflate"] }
tempfile = "=3.27.0"
walkdir = "=2.5.0"
indicatif = "=0.17.11"
thiserror = "=2.0.21"
reqwest = { version = "=0.12.28", default-features = false, features = ["blocking", "json", "rustls-tls"] }
mlua = { version = "=0.10.5", features = ["lua54", "vendored", "serialize"] }
scraper = { version = "=0.20.0", features = ["deterministic"] }
