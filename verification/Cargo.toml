[package]
name = "circle_world"
version = "0.1.0"
edition = "2021"
publish = false

[dependencies]
ordered-float = "1"
slotmap = "1"
piston_window = "*"
