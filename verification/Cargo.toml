[package]
name = "avify"
version = "0.1.0"
edition = "2021"
publish = false

[dependencies]
roxmltree = "=0.21.2"
anyhow = "=1.0.104"
clap = { version = "=4.6.7", features = ["derive"] }
image = { version = "=0.25.10", default-features = false, features = ["jpeg", "png", "gif", "webp", "bmp", "tiff", "tga"] }
imagepipe = "=0.5.1"
imgref = "=1.12.3"
jxl-oxide = "=0.12.6"
psd = "=0.3.5"
ravif = { version = "=0.13.0", default-features = false, features = ["threading"] }
rayon = "=1.12.0"
rgb = "=0.8.53"
