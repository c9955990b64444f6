[package]
name = "era_consensus"
version = "0.1.0"
edition = "2021"
publish = false

[dependencies]
serde = { version = "*", features = ["derive"] }
rand = "*"
derive_more = { version = "*", features = ["from"] }
hex_fmt = "*"
tracing = "*"
