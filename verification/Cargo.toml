[package]
name = "pathtracer"
version = "0.1.0"
edition = "2021"

[dependencies]
const_soft_float = "0.1"
rand = "0.8"
rayon = "1"
