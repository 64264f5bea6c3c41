[package]
name = "stratland"
version = "0.1.0"
edition = "2021"
publish = false

[dependencies]
bincode = "=0.9.2"
rand = "=0.8.8"
serde = { version = "=1.0.229", features = ["derive"] }
serde-xml-rs = "=0.8.2"
clap = "=4.6.7"
gfx = "0.18"
gfx_device_gl = "0.16"
gfx_window_glutin = "0.31"
glutin = "0.21"
image = "0.23"
rodio = "0.17"
