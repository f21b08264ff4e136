[package]
name = "rust_constraint_solver"
version = "0.1.0"
edition = "2021"
publish = false

[dependencies]
rand_chacha = "0.3.1"
uuid = "=1.29.0"
