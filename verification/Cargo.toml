[package]
name = "symbol_table"
version = "0.1.0"
edition = "2021"
publish = false

[dependencies]
ahash = "0.8"
crossbeam-utils = "0.8"
hashbrown = "0.14"
rayon = "1"
serde = { version = "1", features = ["derive"] }

[dev-dependencies]
serde_json = "1"
