[package]
name = "xfce_rs"
version = "0.1.0"
edition = "2021"
publish = false

[dependencies]
fuzzy-matcher = "=0.3.7"
freedesktop-desktop-entry = { version = "=0.7.19", default-features = false }
x11rb = { version = "=0.13.2", features = ["composite", "damage", "render", "xfixes", "shape", "sync"] }
dirs = "=5.0.1"
serde = { version = "=1.0.229", features = ["derive"] }
toml = "=0.8.23"
walkdir = "=2.5.0"
regex = "=1.13.1"
sysinfo = "=0.30.13"
