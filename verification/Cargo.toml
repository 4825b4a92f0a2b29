[package]
name = "excel_loader"
version = "0.1.0"
edition = "2021"
publish = false

[dependencies]
anyhow = "=1.0.104"
calamine = "=0.37.0"
clap = { version = "=4.6.7", features = ["derive"] }
duckdb = { version = "=1.20000.0", default-features = false }
indicatif = "=0.18.6"
libduckdb-sys = { version = "=1.20000.0", default-features = false, features = ["capi-v1"] }
rayon = "=1.12.0"
