[package]
name = "gofi"
version = "0.1.0"
edition = "2021"
publish = false

[dependencies]
fuzzy-matcher = "0.3"
serde = { version = "1", features = ["derive"] }
serde_json = "1"
anyhow = "1"
smithay-client-toolkit = "0.19"
wayland-client = "0.31"
tiny-skia = "0.11"
ab_glyph = "0.2"
fontdb = "*"
xkeysym = "0.2"
