[package]
name = "trdl"
version = "0.1.0"
edition = "2021"
publish = false

[dependencies]
gl = "=0.14.0"
glutin = "=0.32.3"
glutin-winit = "0.5"
rand = "=0.3.23"
raw-window-handle = "0.6"
winit = "0.30"
