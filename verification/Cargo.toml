[package]
name = "truss_solver"
version = "0.1.0"
edition = "2021"
publish = false

[dependencies]
nalgebra = "*"
plotters = "*"
serde = { version = "1", features = ["derive"] }
serde_json = "1"
