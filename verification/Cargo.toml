[package]
name = "schema_codegen"
version = "0.1.0"
edition = "2021"
publish = false

[dependencies]
url = "2"
serde = { version = "1", features = ["derive"] }
serde_json = "1"
serde_yaml = "*"
indextree = "*"
reqwest = { version = "*", default-features = false, features = ["blocking"] }
