[package]
name = "packet"
version = "0.1.0"
edition = "2021"
publish = false

[dependencies]
glam = "=0.34.2"
libm = "=0.2.16"
wasm-bindgen = "0.2"
js-sys = "0.3"
web-sys = { version = "0.3", features = ["Window", "Document", "Element", "Node", "Event", "EventTarget", "KeyboardEvent"] }
