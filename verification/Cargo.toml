[package]
name = "korvin-core"
version = "0.1.0"
edition = "2021"
publish = false

[dependencies]
nonempty = "=0.12.0"
web-sys = { version = "=0.3.106", features = ["Document", "Element", "HtmlElement", "HtmlInputElement", "Node", "NodeList", "Window", "Event", "EventTarget", "InputEvent", "MouseEvent"] }
wasm-bindgen = "=0.2.129"
js-sys = "=0.3.106"
wasm-bindgen-futures = "=0.4.79"
futures = "=0.3.34"
tracing = "=0.1.44"
thiserror = "=2.0.21"
eyre = "*"
chrono = "*"
console_error_panic_hook = "*"
tracing-subscriber = { version = "*", features = ["env-filter"] }
tracing-web = "*"
