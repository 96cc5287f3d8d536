[package]
name = "dominant_colours"
version = "1.4.1"
edition = "2021"
publish = false

[dependencies]
clap = { version = "4", features = ["derive"] }
image = { version = "0.25", default-features = false, features = ["bmp", "gif", "jpeg", "png", "tiff", "webp"] }
image-webp = "0.2"
kmeans_colors = { version = "0.6", default-features = false, features = ["palette_color"] }
palette = "0.7"
