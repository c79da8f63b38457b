[package]
name = "pbuild"
version = "0.1.0"
edition = "2021"
publish = false

[dependencies]
toml = { version = "0.5", features = ["preserve_order"] }
indexmap = "1"
heck = "0.3"
uuid = "0.8"
thiserror = "1"
gumdrop = "0.8"
color-eyre = "0.6"
