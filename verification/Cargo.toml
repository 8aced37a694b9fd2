[package]
name = "hex_dungeon"
version = "0.1.0"
edition = "2021"
publish = false

[dependencies]
ran = "=1.0.7"
hex = "=0.4.3"
yew = { version = "=0.23.0", features = ["csr"] }
yew-router = "=0.20.0"
gloo-console = "=0.4.1"
gloo-timers = "=0.4.0"
wasm-bindgen = "=0.2.129"
web-sys = { version = "=0.3.106", features = ["CanvasRenderingContext2d", "Document", "Element", "EventTarget", "HtmlCanvasElement", "HtmlInputElement", "Window"] }
