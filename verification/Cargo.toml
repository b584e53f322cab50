[package]
name = "devflow_pro"
version = "0.1.0"
edition = "2021"
publish = false

[dependencies]
globset = "*"
syn = { version = "2", features = ["full"] }
quote = "1"
ignore = "*"
rayon = "1"
crossbeam = "*"
serde = { version = "1", features = ["derive"] }
serde_json = "1"
chrono = "*"
