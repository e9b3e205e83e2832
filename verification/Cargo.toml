[package]
name = "zayan_image_magic"
version = "0.1.0"
edition = "2021"
publish = false

[dependencies]
image = "0.25"
webp = "0.3"
ravif = { version = "0.11", default-features = false }
imgref = "1"
rgb = "0.8"
kamadak-exif = "0.5"
serde = { version = "1", features = ["derive"] }
thiserror = "2"
