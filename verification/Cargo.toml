[package]
name = "raster_nodes"
version = "0.1.0"
edition = "2021"
publish = false

[dependencies]
glam = "0.30"
image = { version = "0.24", default-features = false }
log = "0.4"
rustc-hash = "1.1"
