[package]
name = "weighted_adjacency"
version = "0.1.0"
edition = "2021"
publish = false

[dependencies]
hashbrown = { version = "=0.15.5", default-features = false, features = ["inline-more"] }
