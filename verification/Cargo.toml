[package]
name = "tilespin"
version = "0.1.0"
edition = "2021"
publish = false

[dependencies]
find_folder = "*"
piston = "*"
piston_window = "*"
piston2d-graphics = "*"
piston2d-opengl_graphics = "*"
tiled = "0.9"
