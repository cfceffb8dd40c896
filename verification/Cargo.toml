[package]
name = "particle_field"
version = "0.1.0"
edition = "2021"
publish = false

[dependencies]
rustc_apfloat = "=0.1.3"
rand = "0.8"
image = { version = "0.25", default-features = false, features = ["png"] }
clap = { version = "4", features = ["derive"] }
rustacuda = "=0.1.3"
