[package]
name = "gloom"
version = "0.1.0"
edition = "2021"
publish = false

[dependencies]
nalgebra = "=0.35.0"
nalgebra-glm = "=0.21.0"
