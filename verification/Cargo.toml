[package]
name = "stressor"
version = "0.1.0"
edition = "2021"
publish = false

[dependencies]
atomic_float = "1"
chrono = "0.4"
configparser = "3"
flate2 = "1"
num_cpus = "1"
rand = "0.8"
