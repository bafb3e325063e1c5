[package]
name = "icon_forger"
version = "0.1.0"
edition = "2021"
publish = false

[dependencies]
icns = "*"
ico = "*"
image = { version = "*", default-features = false, features = ["png", "webp"] }
kurbo = "*"
resvg = "*"
serde = { version = "*", features = ["derive"] }
serde_json = "*"
thiserror = "*"
tiny-skia = "*"
usvg = "*"
wasm-bindgen = "*"
