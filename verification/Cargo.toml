[package]
name = "inertia_generic"
version = "0.1.0"
edition = "2021"
publish = false

[dependencies]
serde = { version = "*", features = ["derive"] }
inertia-algebra = "*"
