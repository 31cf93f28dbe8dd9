[package]
name = "thermal_network"
version = "0.1.0"
edition = "2021"
publish = false

[dependencies]
anyhow = "1"
glam = "*"
log = "0.4"
