[package]
name = "rotation_sequencer"
version = "0.1.0"
edition = "2021"
publish = false

[dependencies]
conrod_core = "=0.62.0"
conrod_glium = "=0.62.0"
conrod_winit = "=0.62.0"
glium = "=0.23.0"
nalgebra = "=0.32.6"
