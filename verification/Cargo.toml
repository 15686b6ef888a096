[package]
name = "tilemap_render"
version = "0.1.0"
edition = "2021"
publish = false

[dependencies]
genmesh = "0.6"
tiled = "0.9"
