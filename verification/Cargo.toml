[package]
name = "rat_engine"
version = "0.1.0"
edition = "2021"
publish = false

[dependencies]
egui = "*"
egui_sdl2_gl = "*"
gl = "*"
nalgebra = "*"
nalgebra-glm = "*"
sdl2 = "*"
stb_image = "*"
tobj = "*"
