[package]
name = "physarum"
version = "0.1.0"
edition = "2021"
publish = false

[dependencies]
getrandom = { version = "0.2", features = ["js"] }
wasm-bindgen = "0.2"
web-sys = { version = "0.3", features = ["CanvasRenderingContext2d", "HtmlCanvasElement", "ImageData"] }
yew = "0.18"
