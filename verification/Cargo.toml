[package]
name = "eternal_pixels"
version = "0.1.0"
edition = "2021"
publish = false

[dependencies]
cssparser = "=0.37.0"
cssparser-color = "=0.5.0"
selectors = "=0.40.0"
precomputed-hash = "=0.1.1"
skia-safe = "=0.156.0"
