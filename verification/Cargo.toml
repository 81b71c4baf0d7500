[package]
name = "raider"
version = "1.0.0"
edition = "2021"
publish = false

[dependencies]
sha2 = "=0.11.1"
rand = "=0.10.3"
serde_json = "=1.0.154"
chrono = "=0.4.45"
log = "=0.4.34"
separator = "=0.4.1"
reqwest = { version = "=0.13.5", features = ["blocking", "json", "gzip"] }
serde = { version = "=1.0.229", features = ["derive"] }
toml = "=1.1.8"
diesel = { version = "=2.3.14", features = ["sqlite", "r2d2", "chrono"] }
r2d2 = "=0.8.10"
lettre = "=0.11.23"
rocket = { version = "0.5", features = ["secrets"] }
