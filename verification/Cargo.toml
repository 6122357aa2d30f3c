[package]
name = "tachyon"
version = "0.1.0"
edition = "2021"
publish = false

[dependencies]
pasta_curves = "0.5"
ff = "0.13"
group = "0.13"
blake2b_simd = "1"
serde = { version = "1", features = ["derive"] }
