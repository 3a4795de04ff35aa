[package]
name = "motherduck-connector"
version = "0.1.0"
edition = "2021"
publish = false

[dependencies]
duckdb = { version = "=1.4.5", default-features = false }
serde_json = "=1.0.154"
