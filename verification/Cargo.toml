[package]
name = "random_sample"
version = "0.1.0"
edition = "2021"
publish = false

[dependencies]
ink = { version = "4.3.0", default-features = false, features = ["std"] }
parity-scale-codec = { version = "3", default-features = false, features = ["derive", "std"] }
scale-info = { version = "2", default-features = false, features = ["derive", "std"] }
