[package]
name = "russell"
version = "0.1.0"
edition = "2021"
publish = false

[dependencies]
sha2 = "=0.10.9"
hex = "=0.4.3"
time = { version = "=0.3.55", features = ["formatting", "parsing"] }
chrono = "=0.4.45"
serde = { version = "=1.0.229", features = ["derive"] }
serde_json = "=1.0.154"
toml = "=0.8.23"
rusqlite = "=0.41.1"
getrandom = "=0.3.4"
ulid = "=1.2.1"
urlencoding = "=2.1.3"
strsim = "=0.11.1"
reqwest = { version = "=0.12.28", default-features = false, features = ["blocking", "json"] }
age = "0.11"
base64 = "0.22"
