[package]
name = "canvas_paint"
version = "0.1.0"
edition = "2021"
publish = false

[dependencies]
base64 = "0.13"
image = { version = "0.24", default-features = false, features = ["png"] }
epaint = "*"
log = "0.4"
wasm-bindgen = "0.2"
web-sys = { version = "0.3", features = [
    "CanvasRenderingContext2d",
    "Document",
    "DomRect",
    "Element",
    "HtmlCanvasElement",
    "HtmlImageElement",
    "Window",
] }
