[package]
name = "simd"
version = "0.1.0"
edition = "2021"
publish = false

[dev-dependencies]
approx = "*"
quickcheck = { version = "*", default-features = false }
rand = "*"
