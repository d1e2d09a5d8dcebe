[package]
name = "tmstat"
version = "0.1.0"
edition = "2021"
publish = false

[dependencies]
clap = { version = "4", features = ["derive"] }
color-print = "0.3"
libc = "0.2"
num_cpus = "1"
palette = "0.7"
