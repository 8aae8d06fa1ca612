[package]
name = "ray_tracer_rs"
version = "0.1.0"
edition = "2021"
publish = false

[dependencies]
image = { version = "0.22", default-features = false, features = ["png_codec"] }
palette = { version = "0.5", default-features = false, features = ["std"] }
rand = "0.7"
