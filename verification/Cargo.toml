[package]
name = "media_decode"
version = "0.3.0"
edition = "2021"
publish = false

[dependencies]
image = { version = "=0.25.10", default-features = false, features = ["bmp", "png", "jpeg", "webp"] }
ffmpeg-next = "*"
video-rs = "*"
pdfium-render = "=0.9.5"
resvg = "=0.49.0"
anyhow = "=1.0.104"
thiserror = "=2.0.21"
log = "=0.4.35"
