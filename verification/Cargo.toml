[package]
name = "tiledb_query"
version = "0.1.0"
edition = "2021"
publish = false

[dependencies]
anyhow = "1"
proptest = "1"
tempfile = "3"
