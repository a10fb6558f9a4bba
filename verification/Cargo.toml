[package]
name = "oxc_zed"
version = "0.1.0"
edition = "2021"
publish = false

[dependencies]
zed_extension_api = "*"
serde_json = "1"
log = "0.4"
simple_logger = "*"
