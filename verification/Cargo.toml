[package]
name = "task_forest"
version = "0.1.0"
edition = "2021"
publish = false

[dependencies]
crossbeam = "0.8"
num_cpus = "1"
rand = "0.8"
rand_chacha = "0.3"
ring = "0.17"
