[package]
name = "blog"
version = "0.1.0"
edition = "2021"
publish = false

[dependencies]
comrak = "*"
gray_matter = "*"
maud = "*"
serde = { version = "*", features = ["derive"] }
serde_json = "*"
