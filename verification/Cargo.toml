[package]
name = "local_swarm"
version = "0.1.0"
edition = "2021"
publish = false

[dependencies]
anyhow = "1"
hex = "0.4"
num_cpus = "1"
rand = "0.8"
tempfile = "3"
tokio = { version = "1", features = ["time"] }
