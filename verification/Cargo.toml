[package]
name = "loop_lib"
version = "0.1.0"
edition = "2021"
publish = false

[dependencies]
anyhow = "*"
clap = { version = "*", features = ["derive"] }
colored = "*"
rayon = "*"
serde_json = "*"
