[package]
name = "dump_db_to_parquet"
version = "0.1.0"
edition = "2021"
publish = false

[dependencies]
parquet = { version = "*", default-features = false }
chrono = "*"
rusqlite = { version = "*", features = ["bundled"] }

[dev-dependencies]
bytes = "*"
