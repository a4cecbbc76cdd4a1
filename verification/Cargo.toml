[package]
name = "osm2lanes"
version = "0.1.0"
edition = "2021"
publish = false

[dependencies]
celes = "=2.6.0"
locale-codes = "=0.3.0"
serde = { version = "1", features = ["derive"] }
serde_json = "1"
serde_yaml = "=0.9.34"
