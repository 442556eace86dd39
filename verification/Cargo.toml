[package]
name = "vecno_wallet"
version = "0.1.0"
edition = "2021"
publish = false

[dependencies]
bip39 = "2"
hex = "0.4"
chrono = "0.4"
rand = "0.8"
qrcode = "*"
image = { version = "0.25", default-features = false, features = ["png"] }
base64 = "0.22"
serde = { version = "1", features = ["derive"] }
serde_json = "1"
log = "0.4"
env_logger = "0.11"
tokio = { version = "1", features = ["macros", "rt-multi-thread"] }
futures-lite = "2"
yew = { version = "0.21", features = ["csr"] }
wasm-bindgen = "0.2"
wasm-bindgen-futures = "0.4"
js-sys = "0.3"
web-sys = { version = "0.3", features = ["Window", "Document", "Navigator", "Clipboard", "HtmlInputElement", "HtmlSelectElement", "KeyboardEvent", "MouseEvent", "BeforeUnloadEvent", "Element", "Event", "EventTarget", "Node", "console"] }
gloo = "0.11"
gloo-timers = { version = "0.3", features = ["futures"] }
gloo-net = "0.6"
serde-wasm-bindgen = "0.6"
wasm-logger = "0.2"
console_error_panic_hook = "0.1"
