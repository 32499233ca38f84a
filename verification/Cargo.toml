[package]
name = "rigid4d"
version = "0.1.0"
edition = "2021"
publish = false

[dependencies]
bytemuck = { version = "1", features = ["derive"] }
hecs = "*"
itertools = "*"
nalgebra = { version = "*", features = ["bytemuck"] }
