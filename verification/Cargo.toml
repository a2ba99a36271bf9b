[package]
name = "heictojpeg"
version = "0.1.0"
edition = "2021"
publish = false

[dependencies]
image = { version = "*", default-features = false, features = ["jpeg"] }
four-cc = "*"
libheif-rs = "*"
rayon = "*"

[dev-dependencies]
img-parts = "*"
