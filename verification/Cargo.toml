[package]
name = "fractal_toolkit"
version = "0.1.0"
edition = "2021"
publish = false

[dependencies]
num-complex = "*"
num-traits = "*"
image = "*"
clap = { version = "*", features = ["derive"] }
rayon = "*"
num_cpus = "*"
chrono = "*"
rand = "*"
