[package]
name = "pallet_rent"
version = "0.1.0"
edition = "2021"
publish = false

[dependencies]
frame-support = "*"
frame-system = "*"
scale-info = "*"
