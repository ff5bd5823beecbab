[package]
name = "streampager"
version = "0.1.0"
edition = "2021"
publish = false

[dependencies]
anyhow = "1"
termwiz = "*"
vec_map = "0.8"
