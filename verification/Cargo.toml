[package]
name = "voxel_core"
version = "0.1.0"
edition = "2021"
publish = false

[dependencies]
image = "*"
nalgebra = "=0.35.0"
parry3d = "=0.31.1"
reverie-engine = "=0.0.8"
