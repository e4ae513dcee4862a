[package]
name = "koji_build"
version = "0.1.0"
edition = "2021"
publish = false

[dependencies]
tree-sitter = "=0.22.6"
tree-sitter-html = "=0.20.4"
ureq = { version = "=2.12.1", default-features = false }
url = "=2.5.8"
anyhow = "=1.0.104"
serde = { version = "=1.0.229", features = ["derive"] }
