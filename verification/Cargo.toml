[package]
name = "black_gold"
version = "0.1.0"
edition = "2021"
publish = false

[dependencies]
itertools = "0.13"
log = "0.4"
macroquad = { version = "0.4", features = ["audio"] }
miniquad = "0.4"
quad-rand = "0.2"
