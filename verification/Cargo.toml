[package]
name = "chinhta"
version = "0.1.0"
edition = "2021"
publish = false

[dependencies]
unicode-normalization = "*"
zip = "*"
anyhow = "*"
serde = { version = "*", features = ["derive"] }
serde_json = "*"
