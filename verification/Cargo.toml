[package]
name = "eos_build"
version = "0.1.0"
edition = "2021"
publish = false

[dependencies]
clap = { version = "*", features = ["derive"] }
colored = "*"
rayon = "*"
serde = "*"
serde_derive = "*"
toml = "*"
