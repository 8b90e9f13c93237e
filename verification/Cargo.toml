[package]
name = "av2"
version = "0.1.0"
edition = "2021"
publish = false

[dependencies]
ndarray = "=0.17.2"
polars = { version = "=0.55.2", default-features = false, features = ["lazy", "ipc", "ndarray", "parquet"] }
rayon = "=1.12.0"
