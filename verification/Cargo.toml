[package]
name = "foragers"
version = "0.1.0"
edition = "2021"
publish = false

[dependencies]
pathfinding = "*"
rand = "*"
noise = "*"
rand_pcg = "*"
