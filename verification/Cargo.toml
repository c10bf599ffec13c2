[package]
name = "planet_sim"
version = "0.1.0"
edition = "2021"
publish = false

[dependencies]
ndarray = "=0.15.6"
cgmath = "=0.16.1"
isosurface = "=0.0.4"
rand = "=0.4.6"
ocl = "=0.19.7"
glium = "=0.25.1"
glutin = "=0.21.2"
image = "=0.19.0"
config = "=0.8.0"
serde = "=1.0.229"
serde_derive = "=1.0.229"
serde_yaml = "=0.7.5"
log = "=0.4.34"
env_logger = "=0.5.13"
lazy_static = "=1.5.1"
obj = { version = "=0.8.2", features = ["genmesh"] }
genmesh = "=0.5.0"
