[package]
name = "screen_agg"
version = "0.1.0"
edition = "2021"
publish = false

[dependencies]
clap = { version = "*", features = ["derive"] }
statrs = "*"
rand = "*"
rand_chacha = "*"
rayon = "*"
