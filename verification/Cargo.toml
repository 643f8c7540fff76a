[package]
name = "edres"
version = "0.6.0"
edition = "2021"
publish = false

[dependencies]
case = "=1.0.0"
ignore = "=0.4.33"
proc-macro2 = "=1.0.107"
serde_json = { version = "=1.0.154", features = ["preserve_order"] }
serde_yaml = "=0.9.34"
thiserror = "=1.0.69"
toml = { version = "=0.8.23", features = ["preserve_order"] }
unicode-ident = "=1.0.27"
