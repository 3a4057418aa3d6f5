[package]
name = "json_extract"
version = "0.1.0"
edition = "2021"
publish = false

[dependencies]
serde_json = { version = "1", features = ["float_roundtrip", "preserve_order"] }
anyhow = "1"
thiserror = "1"
clap = "4"
