[package]
name = "slua"
version = "0.1.0"
edition = "2021"
publish = false

[dependencies]
mlua = { version = "0.9", features = ["lua54", "vendored", "serialize"] }
serde = "1"
log = "0.4"
env_logger = "0.11"
color-eyre = "0.6"
hyper = "1"
