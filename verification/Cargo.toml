[package]
name = "asteroids"
version = "0.1.0"
edition = "2021"
publish = false

[dependencies]
macroquad = "=0.3.26"
pollster = "=1.0.1"
quad-rand = "=0.2.3"
