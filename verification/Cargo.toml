[package]
name = "homebridge-rusty-spotify"
version = "0.1.0"
edition = "2021"
publish = false

[dependencies]
base64 = "0.13"
js-sys = "0.3"
serde = { version = "1", features = ["derive"] }
serde_json = "1"
wasm-bindgen = "0.2"
wasm-bindgen-futures = "0.4"
web-sys = { version = "0.3", features = ["console"] }
