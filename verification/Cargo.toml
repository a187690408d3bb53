[package]
name = "sunshade"
version = "0.1.0"
edition = "2021"
publish = false

[dependencies]
serde_json = "1"
chrono = "0.4"
anyhow = "1"
log = "0.4"
embedded-svc = "*"
esp-idf-svc = "*"
esp-idf-sys = "*"
toml-cfg = "*"
