[package]
name = "soundfarmer"
version = "0.1.0"
edition = "2021"
publish = false

[dependencies]
sdl2 = "*"
piston = "*"
piston2d-graphics = "*"
piston2d-opengl_graphics = "*"
pistoncore-glutin_window = "*"
