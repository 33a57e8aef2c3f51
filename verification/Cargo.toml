[package]
name = "subconverter"
version = "0.1.0"
edition = "2021"
publish = false

[dependencies]
rand = "0.8"
base64 = "0.21"
urlencoding = "2"
serde_qs = "0.13"
serde_json = "1"
yaml-rust = "0.4"
serde = { version = "1", features = ["derive"] }
serde_yaml = "0.9"
serde_urlencoded = "0.7"
toml = "0.8"
actix-web = { version = "4", default-features = false, features = ["macros"] }
clap = { version = "4", features = ["derive"] }
local-ip-address = "*"
lazy_static = "1"
