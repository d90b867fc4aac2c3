[package]
name = "wemoji_render"
version = "0.1.0"
edition = "2021"
publish = false

[dependencies]
image = "=0.24.9"
imageproc = "=0.23.1"
isahc = "=1.8.3"
rusttype = "=0.9.3"
rustwemoji-parser = { version = "=0.1.1", features = ["discord"] }
