[package]
name = "baras_frontend"
version = "0.1.0"
edition = "2021"
publish = false

[dependencies]
ttf-parser = "=0.25.1"
fontdb = "=0.16.2"
tiny-skia = "=0.11.4"
resvg = "=0.45.1"
usvg = "=0.45.1"
cosmic-text = "=0.14.2"
sys-locale = "=0.3.2"
serde = { version = "=1.0.229", features = ["derive"] }
