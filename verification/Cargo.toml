[package]
name = "contrib_inbox"
version = "0.1.0"
edition = "2021"
publish = false

[dependencies]
base64 = "0.22"
sha2 = "0.10"
serde = { version = "1", features = ["derive"] }
serde_json = "1"
time = { version = "0.3", features = ["parsing"] }
wasm-bindgen = "0.2"
wasm-bindgen-futures = "0.4"
js-sys = "0.3"
console_error_panic_hook = "0.1"
web-sys = { version = "0.3", features = ["Window", "Storage", "Location", "Document", "Element", "HtmlElement", "HtmlInputElement", "HtmlTextAreaElement", "KeyboardEvent", "CssStyleDeclaration", "Request", "RequestInit", "Response", "Headers", "EventTarget", "Node", "console"] }
