[package]
name = "tv_sweep"
version = "0.1.0"
edition = "2021"
publish = false

[dependencies]
clap = { version = "=4.6.7", features = ["derive"] }
image-recovery = "=0.1.0"
log = "=0.4.34"
