[package]
name = "transport_network"
version = "0.1.0"
edition = "2021"
publish = false

[dependencies]
terrain-graph = "*"
fastlem = "*"
noise = "*"
