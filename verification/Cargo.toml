[package]
name = "fractl"
version = "0.1.0"
edition = "2021"
publish = false

[dependencies]
rayon = "1"
clap = "4"
colorgrad = "0.6"
image = "0.24"
