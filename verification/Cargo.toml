[package]
name = "manycore_parser"
version = "0.1.0"
edition = "2021"
publish = false

[dependencies]
quick-xml = { version = "0.36", features = ["serialize"] }
serde = { version = "=1.0.229", features = ["derive"] }
