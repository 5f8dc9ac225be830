[package]
name = "art_tool"
version = "0.1.0"
edition = "2021"
publish = false

[dependencies]
image = { version = "0.25", default-features = false, features = ["png", "jpeg", "webp", "bmp", "tiff"] }
chrono = "0.4"
uuid = { version = "1", features = ["v4"] }
dashmap = "5"
serde = { version = "1", features = ["derive"] }
serde_json = "1"
walkdir = "2"
rayon = "1"
once_cell = "1"
thiserror = "1"
