[package]
name = "table_features"
version = "0.1.0"
edition = "2021"
publish = false

[dependencies]
delta_kernel = { version = "=0.28.0", features = ["internal-api"] }
