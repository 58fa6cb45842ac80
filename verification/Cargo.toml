[package]
name = "rip"
version = "0.1.0"
edition = "2021"
publish = false

[dependencies]
json = "0.12"
lazy_static = "1"
protobuf = "3"
zmq = "0.10"
sdl2 = "0.37"
stb_image = "0.3"
stb_image_write_rust = "1"
runa = "*"
