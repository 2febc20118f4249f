[package]
name = "pgenum_parser"
version = "0.1.0"
edition = "2021"
publish = false

[dependencies]
anyhow = "1"
pg_query = "6"
ron = "*"
serde = { version = "1", features = ["derive"] }
thiserror = "2"
