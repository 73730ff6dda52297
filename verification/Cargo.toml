[package]
name = "materialize"
version = "0.1.0"
edition = "2021"
publish = false

[dependencies]
anyhow = "1"
bson = "2"
indicatif = "0.17"
mongodb = { version = "3", features = ["sync"] }
rayon = "1"
