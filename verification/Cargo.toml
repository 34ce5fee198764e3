[package]
name = "json_surf"
version = "0.1.0"
edition = "2021"
publish = false

[dependencies]
tantivy = "=0.19.2"
serde = { version = "=1.0.229", features = ["derive"] }
serde_json = { version = "=1.0.151", features = ["preserve_order"] }
symspell = "=0.5.2"
rand = "=0.10.3"
