[package]
name = "plot_scheduler"
version = "0.1.0"
edition = "2021"
publish = false

[dependencies]
chan = "0.1"
crossbeam-channel = "0.3"
libc = "0.2"
pbr = "1.0"
rayon = "1"
